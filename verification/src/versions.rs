//! The registry of protocol versions: what each brought, which are
//! deprecated, and how to get from one to another.

use crate::protocol_version::ProtocolVersion;
use crate::text::{push_text, views};
use crate::clock::{parse_rfc3339, rfc3339_instant, utc_now, days_between, whole_days_between, UtcInstant};
use vstd::prelude::*;

verus! {

/// What is recorded of one protocol version.
#[derive(Debug, Clone)]
pub struct VersionMetadata {
    /// The version.
    pub version: ProtocolVersion,
    /// Release date, RFC 3339.
    pub release_date: String,
    /// End of life, RFC 3339, once the version is deprecated.
    pub eol_date: Option<String>,
    /// Whether the version is deprecated.
    pub deprecated: bool,
    /// Breaking changes that the version made.
    pub breaking_changes: Vec<String>,
    /// Features that the version brought.
    pub features: Vec<String>,
    /// How to move on from this version.
    pub migration_guide: Option<String>,
}

/// The text in an optional string.
pub open spec fn text_of(s: Option<String>) -> Option<Seq<char>> {
    match s {
        Some(t) => Some(t@),
        None => None,
    }
}

impl VersionMetadata {
    /// The end of life has passed at `now`: there is an end-of-life date, it
    /// reads as RFC 3339, and `now` is later.
    pub open spec fn eol_passed(self, now: UtcInstant) -> bool {
        self.eol_date matches Some(eol) && rfc3339_instant(eol@) matches Some(end) && now.after(end)
    }

    /// Still in service at `now`: not deprecated, or deprecated with the end
    /// of life yet to come.
    pub open spec fn in_service(self, now: UtcInstant) -> bool {
        !self.deprecated || !self.eol_passed(now)
    }

    /// The record of `version`, released on `release_date`: not deprecated,
    /// nothing listed.
    pub fn new(version: ProtocolVersion, release_date: &str) -> (m: VersionMetadata)
        ensures
            m.version == version,
            m.release_date@ == release_date@,
            m.eol_date is None,
            !m.deprecated,
            m.breaking_changes@.len() == 0,
            m.features@.len() == 0,
            m.migration_guide is None,
    {
        VersionMetadata {
            version,
            release_date: String::from_str(release_date),
            eol_date: None,
            deprecated: false,
            breaking_changes: Vec::new(),
            features: Vec::new(),
            migration_guide: None,
        }
    }

    /// Marks the version deprecated, with its end of life.
    pub fn deprecate(self, eol_date: &str) -> (m: VersionMetadata)
        ensures
            m.deprecated,
            text_of(m.eol_date) == Some(eol_date@),
            m.version == self.version,
            m.release_date == self.release_date,
            m.breaking_changes == self.breaking_changes,
            m.features == self.features,
            m.migration_guide == self.migration_guide,
    {
        let mut m = self;
        m.deprecated = true;
        m.eol_date = Some(String::from_str(eol_date));
        m
    }

    /// Adds a breaking change.
    pub fn breaking_change(self, change: &str) -> (m: VersionMetadata)
        ensures
            views(m.breaking_changes@) == views(self.breaking_changes@).push(change@),
            m.version == self.version,
            m.release_date == self.release_date,
            m.eol_date == self.eol_date,
            m.deprecated == self.deprecated,
            m.features == self.features,
            m.migration_guide == self.migration_guide,
    {
        let mut m = self;
        push_text(&mut m.breaking_changes, change);
        m
    }

    /// Adds a feature.
    pub fn feature(self, feature: &str) -> (m: VersionMetadata)
        ensures
            views(m.features@) == views(self.features@).push(feature@),
            m.version == self.version,
            m.release_date == self.release_date,
            m.eol_date == self.eol_date,
            m.deprecated == self.deprecated,
            m.breaking_changes == self.breaking_changes,
            m.migration_guide == self.migration_guide,
    {
        let mut m = self;
        push_text(&mut m.features, feature);
        m
    }

    /// Sets the migration guide.
    pub fn migration(self, guide: &str) -> (m: VersionMetadata)
        ensures
            text_of(m.migration_guide) == Some(guide@),
            m.version == self.version,
            m.release_date == self.release_date,
            m.eol_date == self.eol_date,
            m.deprecated == self.deprecated,
            m.breaking_changes == self.breaking_changes,
            m.features == self.features,
    {
        let mut m = self;
        m.migration_guide = Some(String::from_str(guide));
        m
    }

    /// The end of life has passed at `now`.
    pub fn is_eol_at(&self, now: UtcInstant) -> (passed: bool)
        ensures
            passed == self.eol_passed(now),
    {
        match &self.eol_date {
            Some(eol) => match parse_rfc3339(eol.as_str()) {
                Some(end) => now.is_after(&end),
                None => false,
            },
            None => false,
        }
    }

    /// The end of life has passed at the time of the call.
    pub fn is_eol(&self) -> (passed: bool)
        ensures
            exists|now: UtcInstant| passed == self.eol_passed(now),
            passed ==> (self.eol_date matches Some(eol) && rfc3339_instant(eol@) is Some),
    {
        let now = utc_now();
        self.is_eol_at(now)
    }
}

/// The record of version 1.0.0: the baseline, deprecated.
pub open spec fn is_v1_0_0_record(m: VersionMetadata) -> bool {
    &&& m.version == (ProtocolVersion { major: 1, minor: 0, patch: 0 })
    &&& m.release_date@ == "2024-01-01T00:00:00Z"@
    &&& m.deprecated
    &&& text_of(m.eol_date) == Some("2025-06-01T00:00:00Z"@)
    &&& m.breaking_changes@.len() == 0
    &&& views(m.features@) == seq![
        "Basic Sphinx packet routing"@,
        "Simple mixnet topology"@,
        "Basic delay mechanisms"@,
    ]
    &&& text_of(m.migration_guide) == Some(
        "To upgrade from v1.0.0:\n1. Update node software to v1.1+ compatible version\n2. Enable batch processing feature flag\n3. Restart node to apply changes\n4. Monitor for compatibility issues in logs"@,
    )
}

/// The record of version 1.1.0: batch processing.
pub open spec fn is_v1_1_0_record(m: VersionMetadata) -> bool {
    &&& m.version == (ProtocolVersion { major: 1, minor: 1, patch: 0 })
    &&& m.release_date@ == "2024-06-01T00:00:00Z"@
    &&& !m.deprecated
    &&& m.eol_date is None
    &&& m.breaking_changes@.len() == 0
    &&& views(m.features@) == seq![
        "Batch packet processing for higher throughput"@,
        "Improved pipeline architecture"@,
        "Enhanced metrics and monitoring"@,
    ]
    &&& text_of(m.migration_guide) == Some(
        "To upgrade from v1.1.0 to v1.2.0:\n1. Update node software to v1.2+ compatible version\n2. Enable relay lottery feature\n3. Enable VRF delay mechanisms\n4. Update packet format to include VRF fields\n5. Restart node with new configuration\n6. Verify VRF functionality in logs"@,
    )
}

/// The record of version 1.2.0: the current version.
pub open spec fn is_v1_2_0_record(m: VersionMetadata) -> bool {
    &&& m.version == (ProtocolVersion { major: 1, minor: 2, patch: 0 })
    &&& m.release_date@ == "2025-01-01T00:00:00Z"@
    &&& !m.deprecated
    &&& m.eol_date is None
    &&& m.breaking_changes@.len() == 0
    &&& views(m.features@) == seq![
        "L4 Privacy Hop with relay lottery"@,
        "VRF-based delay mechanisms"@,
        "Cover traffic generation"@,
        "Enhanced Sphinx packet format"@,
        "Backward compatibility with v1.1"@,
    ]
    &&& text_of(m.migration_guide) == Some(
        "Current stable version. No migration needed.\nNew nodes should start directly with v1.2.0."@,
    )
}

/// Strictly newer than `from` and no newer than `to`.
pub open spec fn in_upgrade_range(v: ProtocolVersion, from: ProtocolVersion, to: ProtocolVersion) -> bool {
    from.precedes(v) && !to.precedes(v)
}

/// Where a record of version `v` goes into a path in ascending order: behind
/// the last record that is no newer.
pub open spec fn insertion_point(path: Seq<VersionMetadata>, v: ProtocolVersion) -> int
    decreases path.len(),
{
    if path.len() == 0 {
        0
    } else if !v.precedes(path.last().version) {
        path.len() as int
    } else {
        insertion_point(path.drop_last(), v)
    }
}

/// The records in the upgrade range, oldest version first; records of one
/// version keep the order in which they were registered.
pub open spec fn upgrade_steps(
    entries: Seq<VersionMetadata>,
    from: ProtocolVersion,
    to: ProtocolVersion,
) -> Seq<VersionMetadata>
    decreases entries.len(),
{
    if entries.len() == 0 {
        Seq::empty()
    } else {
        let before = upgrade_steps(entries.drop_last(), from, to);
        let m = entries.last();
        if in_upgrade_range(m.version, from, to) {
            before.insert(insertion_point(before, m.version), m)
        } else {
            before
        }
    }
}

/// The records that are in service at `now`, in registration order.
pub open spec fn in_service_at(entries: Seq<VersionMetadata>, now: UtcInstant) -> Seq<
    VersionMetadata,
> {
    entries.filter(|m: VersionMetadata| m.in_service(now))
}

/// The records behind a list of references.
pub open spec fn records(refs: Seq<&VersionMetadata>) -> Seq<VersionMetadata> {
    refs.map_values(|m: &VersionMetadata| *m)
}

/// `version` is registered and its first record is in service at `now`.
pub open spec fn version_in_service(
    entries: Seq<VersionMetadata>,
    version: ProtocolVersion,
    now: UtcInstant,
) -> bool {
    exists|i: int|
        0 <= i < entries.len() && (#[trigger] entries[i]).version == version && entries[i].in_service(
            now,
        ) && forall|j: int| 0 <= j < i ==> (#[trigger] entries[j]).version != version
}

/// `i` is the last record among those with the newest version.
pub open spec fn is_latest(entries: Seq<VersionMetadata>, i: int) -> bool {
    &&& 0 <= i < entries.len()
    &&& forall|j: int| 0 <= j < entries.len() ==> !entries[i].version.precedes(entries[j].version)
    &&& forall|j: int| i < j < entries.len() ==> entries[j].version.precedes(entries[i].version)
}

/// All known protocol versions, in the order of their registration. It is
/// never empty.
pub struct VersionRegistry {
    versions: Vec<VersionMetadata>,
}

impl VersionRegistry {
    #[verifier::type_invariant]
    spec fn nonempty(self) -> bool {
        self.versions@.len() > 0
    }

    /// The records, in registration order.
    pub closed spec fn entries(self) -> Seq<VersionMetadata> {
        self.versions@
    }

    /// The registry of the three known versions: 1.0.0, 1.1.0, 1.2.0.
    pub fn new() -> (registry: VersionRegistry)
        ensures
            registry.entries().len() == 3,
            is_v1_0_0_record(registry.entries()[0]),
            is_v1_1_0_record(registry.entries()[1]),
            is_v1_2_0_record(registry.entries()[2]),
    {
        let mut versions: Vec<VersionMetadata> = Vec::new();
        VersionRegistry::register_v1_0_0(&mut versions);
        VersionRegistry::register_v1_1_0(&mut versions);
        VersionRegistry::register_v1_2_0(&mut versions);
        VersionRegistry { versions }
    }

    fn register_v1_0_0(versions: &mut Vec<VersionMetadata>)
        ensures
            final(versions)@.len() == old(versions)@.len() + 1,
            final(versions)@ == old(versions)@.push(final(versions)@.last()),
            is_v1_0_0_record(final(versions)@.last()),
    {
        let m0 = VersionMetadata::new(ProtocolVersion::new(1, 0, 0), "2024-01-01T00:00:00Z");
        assert(views(m0.features@) =~= Seq::<Seq<char>>::empty());
        let m = m0.deprecate("2025-06-01T00:00:00Z").feature("Basic Sphinx packet routing").feature(
            "Simple mixnet topology",
        ).feature("Basic delay mechanisms").migration(
            "To upgrade from v1.0.0:\n1. Update node software to v1.1+ compatible version\n2. Enable batch processing feature flag\n3. Restart node to apply changes\n4. Monitor for compatibility issues in logs",
        );
        assert(views(m.features@) =~= seq![
            "Basic Sphinx packet routing"@,
            "Simple mixnet topology"@,
            "Basic delay mechanisms"@,
        ]);
        versions.push(m);
    }

    fn register_v1_1_0(versions: &mut Vec<VersionMetadata>)
        ensures
            final(versions)@.len() == old(versions)@.len() + 1,
            final(versions)@ == old(versions)@.push(final(versions)@.last()),
            is_v1_1_0_record(final(versions)@.last()),
    {
        let m0 = VersionMetadata::new(ProtocolVersion::new(1, 1, 0), "2024-06-01T00:00:00Z");
        assert(views(m0.features@) =~= Seq::<Seq<char>>::empty());
        let m = m0.feature("Batch packet processing for higher throughput").feature(
            "Improved pipeline architecture",
        ).feature("Enhanced metrics and monitoring").migration(
            "To upgrade from v1.1.0 to v1.2.0:\n1. Update node software to v1.2+ compatible version\n2. Enable relay lottery feature\n3. Enable VRF delay mechanisms\n4. Update packet format to include VRF fields\n5. Restart node with new configuration\n6. Verify VRF functionality in logs",
        );
        assert(views(m.features@) =~= seq![
            "Batch packet processing for higher throughput"@,
            "Improved pipeline architecture"@,
            "Enhanced metrics and monitoring"@,
        ]);
        versions.push(m);
    }

    fn register_v1_2_0(versions: &mut Vec<VersionMetadata>)
        ensures
            final(versions)@.len() == old(versions)@.len() + 1,
            final(versions)@ == old(versions)@.push(final(versions)@.last()),
            is_v1_2_0_record(final(versions)@.last()),
    {
        let m0 = VersionMetadata::new(ProtocolVersion::new(1, 2, 0), "2025-01-01T00:00:00Z");
        assert(views(m0.features@) =~= Seq::<Seq<char>>::empty());
        let m = m0.feature("L4 Privacy Hop with relay lottery").feature(
            "VRF-based delay mechanisms",
        ).feature("Cover traffic generation").feature("Enhanced Sphinx packet format").feature(
            "Backward compatibility with v1.1",
        ).migration(
            "Current stable version. No migration needed.\nNew nodes should start directly with v1.2.0.",
        );
        assert(views(m.features@) =~= seq![
            "L4 Privacy Hop with relay lottery"@,
            "VRF-based delay mechanisms"@,
            "Cover traffic generation"@,
            "Enhanced Sphinx packet format"@,
            "Backward compatibility with v1.1"@,
        ]);
        versions.push(m);
    }

    /// The first record of `version`.
    pub fn get(&self, version: &ProtocolVersion) -> (found: Option<&VersionMetadata>)
        ensures
            match found {
                Some(m) => exists|i: int|
                    0 <= i < self.entries().len() && *m == self.entries()[i] && m.version
                        == *version && forall|j: int|
                        0 <= j < i ==> self.entries()[j].version != *version,
                None => forall|i: int|
                    0 <= i < self.entries().len() ==> self.entries()[i].version != *version,
            },
    {
        let mut i: usize = 0;
        while i < self.versions.len()
            invariant
                i <= self.versions@.len(),
                forall|j: int| 0 <= j < i ==> self.versions@[j].version != *version,
            decreases self.versions@.len() - i,
        {
            if self.versions[i].version == *version {
                return Some(&self.versions[i]);
            }
            i = i + 1;
        }
        None
    }

    /// All records, in registration order.
    pub fn all(&self) -> (list: &[VersionMetadata])
        ensures
            list@ == self.entries(),
    {
        self.versions.as_slice()
    }

    /// The record of the newest version; the last of them where several
    /// records share it.
    pub fn latest(&self) -> (newest: &VersionMetadata)
        ensures
            exists|i: int| is_latest(self.entries(), i) && *newest == self.entries()[i],
    {
        proof {
            use_type_invariant(self);
        }
        let mut best: usize = 0;
        let mut i: usize = 1;
        while i < self.versions.len()
            invariant
                0 <= best < i <= self.versions@.len(),
                forall|j: int|
                    0 <= j < i ==> !self.versions@[best as int].version.precedes(
                        self.versions@[j].version,
                    ),
                forall|j: int|
                    best < j < i ==> self.versions@[j].version.precedes(
                        self.versions@[best as int].version,
                    ),
            decreases self.versions@.len() - i,
        {
            if !self.versions[i].version.is_older_than(&self.versions[best].version) {
                best = i;
            }
            i = i + 1;
        }
        assert(is_latest(self.entries(), best as int));
        &self.versions[best]
    }

    /// The records in service at `now`, in registration order.
    pub fn supported_at(&self, now: UtcInstant) -> (list: Vec<&VersionMetadata>)
        ensures
            records(list@) == in_service_at(self.entries(), now),
    {
        let mut list: Vec<&VersionMetadata> = Vec::new();
        let mut i: usize = 0;
        proof {
            reveal(Seq::filter);
            assert(self.versions@.take(0) =~= Seq::<VersionMetadata>::empty());
            assert(records(list@) =~= in_service_at(self.versions@.take(0), now));
        }
        while i < self.versions.len()
            invariant
                i <= self.versions@.len(),
                records(list@) == in_service_at(self.versions@.take(i as int), now),
            decreases self.versions@.len() - i,
        {
            let m = &self.versions[i];
            proof {
                reveal(Seq::filter);
                let next = self.versions@.take(i + 1);
                assert(next.drop_last() =~= self.versions@.take(i as int));
                assert(next.last() == self.versions@[i as int]);
            }
            if !m.deprecated || !m.is_eol_at(now) {
                let ghost before = list@;
                list.push(m);
                assert(records(list@) =~= records(before).push(*m));
            }
            i = i + 1;
        }
        assert(self.versions@.take(i as int) =~= self.versions@);
        list
    }

    /// The records in service at the time of the call.
    pub fn supported(&self) -> (list: Vec<&VersionMetadata>)
        ensures
            exists|now: UtcInstant| records(list@) == in_service_at(self.entries(), now),
    {
        let now = utc_now();
        self.supported_at(now)
    }

    /// The records to pass through on the way from `from` to `to`, oldest
    /// first; nothing where the two differ in their major version.
    pub fn upgrade_path(&self, from: &ProtocolVersion, to: &ProtocolVersion) -> (path: Option<
        Vec<&VersionMetadata>,
    >)
        ensures
            from.major != to.major <==> path is None,
            path matches Some(p) ==> records(p@) == upgrade_steps(self.entries(), *from, *to),
    {
        if from.major != to.major {
            return None;
        }
        let mut path: Vec<&VersionMetadata> = Vec::new();
        let mut i: usize = 0;
        assert(self.versions@.take(0) =~= Seq::<VersionMetadata>::empty());
        assert(records(path@) =~= upgrade_steps(self.versions@.take(0), *from, *to));
        while i < self.versions.len()
            invariant
                i <= self.versions@.len(),
                records(path@) == upgrade_steps(self.versions@.take(i as int), *from, *to),
            decreases self.versions@.len() - i,
        {
            let m = &self.versions[i];
            proof {
                let next = self.versions@.take(i + 1);
                assert(next.drop_last() =~= self.versions@.take(i as int));
                assert(next.last() == self.versions@[i as int]);
            }
            if from.is_older_than(&m.version) && !to.is_older_than(&m.version) {
                let mut k: usize = path.len();
                assert(records(path@).take(k as int) =~= records(path@));
                while k > 0 && m.version.is_older_than(&path[k - 1].version)
                    invariant
                        k <= path@.len(),
                        insertion_point(records(path@), m.version) == insertion_point(
                            records(path@).take(k as int),
                            m.version,
                        ),
                    decreases k,
                {
                    proof {
                        let head = records(path@).take(k as int);
                        assert(head.last() == *path@[k - 1]);
                        assert(head.drop_last() =~= records(path@).take(k - 1));
                    }
                    k = k - 1;
                }
                proof {
                    let head = records(path@).take(k as int);
                    if k > 0 {
                        assert(head.last() == *path@[k - 1]);
                    }
                    assert(insertion_point(head, m.version) == k);
                }
                let ghost before = path@;
                path.insert(k, m);
                assert(records(path@) =~= records(before).insert(k as int, *m));
            }
            i = i + 1;
        }
        assert(self.versions@.take(i as int) =~= self.versions@);
        Some(path)
    }

    /// `version` is registered and its first record is in service at `now`.
    pub fn is_supported_at(&self, version: &ProtocolVersion, now: UtcInstant) -> (ok: bool)
        ensures
            ok == version_in_service(self.entries(), *version, now),
    {
        match self.get(version) {
            Some(m) => !m.deprecated || !m.is_eol_at(now),
            None => false,
        }
    }

    /// `version` is registered and in service at the time of the call.
    pub fn is_supported(&self, version: &ProtocolVersion) -> (ok: bool)
        ensures
            exists|now: UtcInstant| ok == #[trigger] version_in_service(self.entries(), *version, now),
    {
        let now = utc_now();
        self.is_supported_at(version, now)
    }
}

impl Default for VersionRegistry {
    fn default() -> (registry: VersionRegistry)
        ensures
            registry.entries().len() == 3,
            is_v1_0_0_record(registry.entries()[0]),
            is_v1_1_0_record(registry.entries()[1]),
            is_v1_2_0_record(registry.entries()[2]),
    {
        VersionRegistry::new()
    }
}

/// No record of a path is newer than one that follows it.
pub open spec fn ascending(path: Seq<VersionMetadata>) -> bool {
    forall|i: int, j: int|
        0 <= i < j < path.len() ==> !(#[trigger] path[j]).version.precedes(
            (#[trigger] path[i]).version,
        )
}

proof fn lemma_insertion_point(path: Seq<VersionMetadata>, v: ProtocolVersion)
    requires
        ascending(path),
    ensures
        0 <= insertion_point(path, v) <= path.len(),
        forall|j: int| 0 <= j < insertion_point(path, v) ==> !v.precedes((#[trigger] path[j]).version),
        forall|j: int|
            insertion_point(path, v) <= j < path.len() ==> v.precedes((#[trigger] path[j]).version),
    decreases path.len(),
{
    if path.len() > 0 && v.precedes(path.last().version) {
        let head = path.drop_last();
        assert forall|i: int, j: int| 0 <= i < j < head.len() implies !(#[trigger] head[j]).version.precedes(
            (#[trigger] head[i]).version,
        ) by {
            assert(head[j] == path[j] && head[i] == path[i]);
        }
        lemma_insertion_point(head, v);
        assert forall|j: int| 0 <= j < insertion_point(path, v) implies !v.precedes(
            (#[trigger] path[j]).version,
        ) by {
            assert(path[j] == head[j]);
        }
        assert forall|j: int| insertion_point(path, v) <= j < path.len() implies v.precedes(
            (#[trigger] path[j]).version,
        ) by {
            if j < head.len() {
                assert(path[j] == head[j]);
            }
        }
    } else if path.len() > 0 {
        assert forall|j: int| 0 <= j < path.len() implies !v.precedes((#[trigger] path[j]).version) by {
            if j < path.len() - 1 {
                assert(!path[path.len() - 1].version.precedes(path[j].version));
            }
        }
    }
}

/// An upgrade path is in ascending order of version.
pub proof fn lemma_upgrade_steps_ascend(
    entries: Seq<VersionMetadata>,
    from: ProtocolVersion,
    to: ProtocolVersion,
)
    ensures
        ascending(upgrade_steps(entries, from, to)),
    decreases entries.len(),
{
    if entries.len() > 0 {
        let before = upgrade_steps(entries.drop_last(), from, to);
        let m = entries.last();
        lemma_upgrade_steps_ascend(entries.drop_last(), from, to);
        if in_upgrade_range(m.version, from, to) {
            lemma_insertion_point(before, m.version);
            let p = insertion_point(before, m.version);
            let after = before.insert(p, m);
            assert forall|i: int, j: int| 0 <= i < j < after.len() implies !(#[trigger] after[j]).version.precedes(
                (#[trigger] after[i]).version,
            ) by {
                if j < p {
                    assert(after[i] == before[i] && after[j] == before[j]);
                } else if j == p {
                    assert(after[i] == before[i]);
                } else if i < p {
                    assert(after[i] == before[i] && after[j] == before[j - 1]);
                    if i < j - 1 {
                        assert(!before[j - 1].version.precedes(before[i].version));
                    }
                } else if i == p {
                    assert(after[j] == before[j - 1]);
                } else {
                    assert(after[i] == before[i - 1] && after[j] == before[j - 1]);
                }
            }
        }
    }
}

/// An upgrade path holds exactly the registered records whose version is
/// strictly newer than `from` and no newer than `to`.
pub proof fn lemma_upgrade_steps_members(
    entries: Seq<VersionMetadata>,
    from: ProtocolVersion,
    to: ProtocolVersion,
    m: VersionMetadata,
)
    ensures
        upgrade_steps(entries, from, to).contains(m) <==> entries.contains(m) && in_upgrade_range(
            m.version,
            from,
            to,
        ),
    decreases entries.len(),
{
    if entries.len() > 0 {
        let head = entries.drop_last();
        let before = upgrade_steps(head, from, to);
        let last = entries.last();
        lemma_upgrade_steps_members(head, from, to, m);
        lemma_upgrade_steps_ascend(head, from, to);
        lemma_insertion_point(before, last.version);
        assert(entries.contains(m) <==> head.contains(m) || m == last) by {
            if entries.contains(m) {
                let i = choose|i: int| 0 <= i < entries.len() && entries[i] == m;
                if i < head.len() {
                    assert(head[i] == m);
                }
            }
            if head.contains(m) {
                let i = choose|i: int| 0 <= i < head.len() && head[i] == m;
                assert(entries[i] == m);
            }
            if m == last {
                assert(entries[entries.len() - 1] == m);
            }
        }
        if in_upgrade_range(last.version, from, to) {
            let p = insertion_point(before, last.version);
            let after = before.insert(p, last);
            assert(after.contains(m) <==> before.contains(m) || m == last) by {
                if after.contains(m) {
                    let i = choose|i: int| 0 <= i < after.len() && after[i] == m;
                    if i < p {
                        assert(before[i] == m);
                    } else if i > p {
                        assert(before[i - 1] == m);
                    }
                }
                if before.contains(m) {
                    let i = choose|i: int| 0 <= i < before.len() && before[i] == m;
                    if i < p {
                        assert(after[i] == m);
                    } else {
                        assert(after[i + 1] == m);
                    }
                }
                if m == last {
                    assert(after[p] == m);
                }
            }
        }
    }
}

/// The schedule on which a version goes out of service.
#[derive(Debug, Clone)]
pub struct DeprecationTimeline {
    /// The version that goes out of service.
    pub version: ProtocolVersion,
    /// When the deprecation was announced, RFC 3339.
    pub announced: String,
    /// End of life, RFC 3339.
    pub eol: String,
    /// The version to move to.
    pub upgrade_to: ProtocolVersion,
    /// Why the version goes out of service.
    pub reason: String,
}

impl DeprecationTimeline {
    /// In the deprecation window at `now`: both dates read as RFC 3339, the
    /// announcement is not later than `now`, and the end of life is.
    pub open spec fn active_at(self, now: UtcInstant) -> bool {
        rfc3339_instant(self.announced@) matches Some(start) && rfc3339_instant(self.eol@) matches Some(
            end,
        ) && !start.after(now) && end.after(now)
    }

    /// The timeline of version 1.0.0.
    pub fn v1_0_0() -> (timeline: DeprecationTimeline)
        ensures
            timeline.version == (ProtocolVersion { major: 1, minor: 0, patch: 0 }),
            timeline.announced@ == "2024-12-01T00:00:00Z"@,
            timeline.eol@ == "2025-06-01T00:00:00Z"@,
            timeline.upgrade_to == (ProtocolVersion { major: 1, minor: 2, patch: 0 }),
            timeline.reason@
                == "Lacks critical L4 privacy features and VRF-based security enhancements"@,
    {
        DeprecationTimeline {
            version: ProtocolVersion::new(1, 0, 0),
            announced: String::from_str("2024-12-01T00:00:00Z"),
            eol: String::from_str("2025-06-01T00:00:00Z"),
            upgrade_to: ProtocolVersion::v1_2_0(),
            reason: String::from_str(
                "Lacks critical L4 privacy features and VRF-based security enhancements",
            ),
        }
    }

    /// In the deprecation window at `now`.
    pub fn is_active_at(&self, now: UtcInstant) -> (active: bool)
        ensures
            active == self.active_at(now),
    {
        match (parse_rfc3339(self.announced.as_str()), parse_rfc3339(self.eol.as_str())) {
            (Some(start), Some(end)) => !start.is_after(&now) && end.is_after(&now),
            _ => false,
        }
    }

    /// In the deprecation window at the time of the call.
    pub fn is_active(&self) -> (active: bool)
        ensures
            exists|now: UtcInstant| active == self.active_at(now),
    {
        let now = utc_now();
        self.is_active_at(now)
    }

    /// Whole days from `now` to the end of life, negative once it has passed;
    /// nothing where the end-of-life date does not read as RFC 3339.
    pub fn days_until_eol_at(&self, now: UtcInstant) -> (days: Option<i64>)
        ensures
            match rfc3339_instant(self.eol@) {
                Some(end) => days == Some(whole_days_between(now, end) as i64),
                None => days is None,
            },
    {
        match parse_rfc3339(self.eol.as_str()) {
            Some(end) => Some(days_between(now, end)),
            None => None,
        }
    }

    /// Whole days from the time of the call to the end of life.
    pub fn days_until_eol(&self) -> (days: Option<i64>)
        ensures
            days is Some <==> rfc3339_instant(self.eol@) is Some,
            days matches Some(d) ==> exists|now: UtcInstant|
                d == whole_days_between(now, rfc3339_instant(self.eol@).unwrap()),
    {
        let now = utc_now();
        self.days_until_eol_at(now)
    }
}

} // verus!

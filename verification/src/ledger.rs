//! The content ledger: one record per device and logical path.
//!
//! Every stored file of a device is described by exactly one [`LocalEntry`],
//! addressed by the content key derived from its logical path. A push to a
//! path already present updates that entry in place; a push to a fresh path
//! appends a new entry; entries are never deleted by the protocol.

use vstd::hash_map::StringHashMap;
use vstd::prelude::*;

verus! {

/// Timestamps and size recorded alongside a stored file, with the reported
/// media type when one was supplied.
#[derive(Debug)]
pub struct SerializedMetadata {
    pub file_type: Option<String>,
    pub modified: Option<u64>,
    pub accessed: Option<u64>,
    pub created: Option<u64>,
    pub len: Option<u64>,
}

/// The specification-level image of [`SerializedMetadata`].
pub struct MetadataView {
    pub file_type: Option<Seq<char>>,
    pub modified: Option<u64>,
    pub accessed: Option<u64>,
    pub created: Option<u64>,
    pub len: Option<u64>,
}

impl View for SerializedMetadata {
    type V = MetadataView;

    open spec fn view(&self) -> MetadataView {
        MetadataView {
            file_type: (match self.file_type {
                Some(ref t) => Some(t@),
                None => None,
            }),
            modified: self.modified,
            accessed: self.accessed,
            created: self.created,
            len: self.len,
        }
    }
}

impl SerializedMetadata {
    /// Builds the snapshot recorded at push time: the write moment serves
    /// as every filesystem timestamp, and the media type is kept verbatim.
    pub fn from(file_type: Option<String>, now: u64, len: u64) -> (metadata: SerializedMetadata)
        ensures
            metadata@ == (MetadataView {
                file_type: (match file_type {
                    Some(t) => Some(t@),
                    None => None::<Seq<char>>,
                }),
                modified: Some(now),
                accessed: Some(now),
                created: Some(now),
                len: Some(len),
            }),
    {
        SerializedMetadata {
            file_type,
            modified: Some(now),
            accessed: Some(now),
            created: Some(now),
            len: Some(len),
        }
    }

    /// An owned copy with the same value.
    pub fn duplicate(&self) -> (metadata: SerializedMetadata)
        ensures
            metadata@ == self@,
    {
        SerializedMetadata {
            file_type: (match &self.file_type {
                Some(t) => Some(t.clone()),
                None => None,
            }),
            modified: self.modified,
            accessed: self.accessed,
            created: self.created,
            len: self.len,
        }
    }
}

/// The ledger record of one stored file of one device.
#[derive(Debug)]
pub struct LocalEntry {
    pub content_key: String,
    pub device_id: String,
    pub file_name: String,
    pub relative_path: String,
    pub dir_path: String,
    pub client_path: String,
    pub byte_size: u64,
    pub storage_location: String,
    pub mime_type: Option<String>,
    pub perceptual_hash: Option<String>,
    pub metadata: SerializedMetadata,
}

/// The specification-level image of [`LocalEntry`].
pub struct EntryView {
    pub content_key: Seq<char>,
    pub device_id: Seq<char>,
    pub file_name: Seq<char>,
    pub relative_path: Seq<char>,
    pub dir_path: Seq<char>,
    pub client_path: Seq<char>,
    pub byte_size: u64,
    pub storage_location: Seq<char>,
    pub mime_type: Option<Seq<char>>,
    pub perceptual_hash: Option<Seq<char>>,
    pub metadata: MetadataView,
}

impl View for LocalEntry {
    type V = EntryView;

    open spec fn view(&self) -> EntryView {
        EntryView {
            content_key: self.content_key@,
            device_id: self.device_id@,
            file_name: self.file_name@,
            relative_path: self.relative_path@,
            dir_path: self.dir_path@,
            client_path: self.client_path@,
            byte_size: self.byte_size,
            storage_location: self.storage_location@,
            mime_type: (match self.mime_type {
                Some(ref t) => Some(t@),
                None => None,
            }),
            perceptual_hash: (match self.perceptual_hash {
                Some(ref h) => Some(h@),
                None => None,
            }),
            metadata: self.metadata@,
        }
    }
}

impl LocalEntry {
    /// Assembles the record of one stored file from the written bytes'
    /// size and location, the push moment, and the logical path fields.
    pub fn new(
        device_id: String,
        file_name: String,
        byte_size: u64,
        storage_location: String,
        mime_type: Option<String>,
        perceptual_hash: Option<String>,
        dir_path: String,
        client_path: String,
        relative_path: String,
        content_key: String,
        now: u64,
    ) -> (entry: LocalEntry)
        ensures
            entry@ == (EntryView {
                content_key: content_key@,
                device_id: device_id@,
                file_name: file_name@,
                relative_path: relative_path@,
                dir_path: dir_path@,
                client_path: client_path@,
                byte_size,
                storage_location: storage_location@,
                mime_type: (match mime_type {
                    Some(t) => Some(t@),
                    None => None::<Seq<char>>,
                }),
                perceptual_hash: (match perceptual_hash {
                    Some(h) => Some(h@),
                    None => None::<Seq<char>>,
                }),
                metadata: MetadataView {
                    file_type: (match mime_type {
                        Some(t) => Some(t@),
                        None => None::<Seq<char>>,
                    }),
                    modified: Some(now),
                    accessed: Some(now),
                    created: Some(now),
                    len: Some(byte_size),
                },
            }),
    {
        let file_type = match &mime_type {
            Some(t) => Some(t.clone()),
            None => None,
        };
        let metadata = SerializedMetadata::from(file_type, now, byte_size);
        LocalEntry {
            content_key,
            device_id,
            file_name,
            relative_path,
            dir_path,
            client_path,
            byte_size,
            storage_location,
            mime_type,
            perceptual_hash,
            metadata,
        }
    }

    /// An owned copy with the same value.
    pub fn duplicate(&self) -> (entry: LocalEntry)
        ensures
            entry@ == self@,
    {
        LocalEntry {
            content_key: self.content_key.clone(),
            device_id: self.device_id.clone(),
            file_name: self.file_name.clone(),
            relative_path: self.relative_path.clone(),
            dir_path: self.dir_path.clone(),
            client_path: self.client_path.clone(),
            byte_size: self.byte_size,
            storage_location: self.storage_location.clone(),
            mime_type: (match &self.mime_type {
                Some(t) => Some(t.clone()),
                None => None,
            }),
            perceptual_hash: (match &self.perceptual_hash {
                Some(h) => Some(h.clone()),
                None => None,
            }),
            metadata: self.metadata.duplicate(),
        }
    }

    /// The metadata snapshot recorded with the entry.
    pub fn get_metadata(&self) -> (metadata: &SerializedMetadata)
        ensures
            metadata@ == self@.metadata,
    {
        &self.metadata
    }

    /// Replaces the metadata snapshot; every other field keeps its value.
    pub fn set_metadata(&mut self, metadata: SerializedMetadata)
        ensures
            final(self)@ == (EntryView { metadata: metadata@, ..old(self)@ }),
    {
        self.metadata = metadata;
    }
}

/// The abstract value of a sequence of entries.
pub open spec fn entry_views(entries: Seq<LocalEntry>) -> Seq<EntryView> {
    entries.map_values(|entry: LocalEntry| entry@)
}

/// The position of the first entry addressed by `content_key`, or -1 when
/// no entry is.
pub open spec fn entry_index(entries: Seq<EntryView>, content_key: Seq<char>) -> int
    decreases entries.len(),
{
    if entries.len() == 0 {
        -1
    } else if entries.first().content_key == content_key {
        0
    } else {
        let rest = entry_index(entries.drop_first(), content_key);
        if rest == -1 {
            -1
        } else {
            rest + 1
        }
    }
}

/// `entry_index` finds exactly the first entry with the key: -1 means no
/// entry carries it, and a non-negative index points at the first one.
pub proof fn lemma_entry_index(entries: Seq<EntryView>, content_key: Seq<char>)
    ensures
        -1 <= entry_index(entries, content_key) < entries.len(),
        entry_index(entries, content_key) == -1 ==> forall|j: int|
            0 <= j < entries.len() ==> (#[trigger] entries[j]).content_key != content_key,
        entry_index(entries, content_key) >= 0 ==> entries[entry_index(
            entries,
            content_key,
        )].content_key == content_key && forall|j: int|
            0 <= j < entry_index(entries, content_key) ==> (#[trigger] entries[j]).content_key
                != content_key,
    decreases entries.len(),
{
    if entries.len() > 0 && entries.first().content_key != content_key {
        lemma_entry_index(entries.drop_first(), content_key);
        assert(forall|j: int|
            1 <= j < entries.len() ==> entries.drop_first()[j - 1] == #[trigger] entries[j]);
    }
}

/// The update-in-place rule of the ledger: a keyed write replaces the one
/// entry already addressed by the key, or appends when the key is fresh.
pub open spec fn upsert_seq(entries: Seq<EntryView>, entry: EntryView) -> Seq<EntryView> {
    let i = entry_index(entries, entry.content_key);
    if i == -1 {
        entries.push(entry)
    } else {
        entries.update(i, entry)
    }
}

/// A keyed write lands: afterwards an entry with the written key is
/// present and holds exactly the written entry — at its old position when
/// the key was present, appended at the end when it was fresh.
pub proof fn lemma_upsert_found(entries: Seq<EntryView>, entry: EntryView)
    ensures
        ({
            let merged = upsert_seq(entries, entry);
            &&& entry_index(merged, entry.content_key) >= 0
            &&& merged[entry_index(merged, entry.content_key)] == entry
            &&& entry_index(entries, entry.content_key) >= 0 ==> merged.len() == entries.len()
                && entry_index(merged, entry.content_key) == entry_index(
                entries,
                entry.content_key,
            )
            &&& entry_index(entries, entry.content_key) == -1 ==> merged.len() == entries.len()
                + 1 && entry_index(merged, entry.content_key) == entries.len()
        }),
{
    let k = entry.content_key;
    let i0 = entry_index(entries, k);
    let merged = upsert_seq(entries, entry);
    lemma_entry_index(entries, k);
    lemma_entry_index(merged, k);
    let ir = entry_index(merged, k);
    if i0 == -1 {
        assert(merged == entries.push(entry));
        assert(merged[entries.len() as int] == entry);
        if ir == -1 {
            assert(merged[entries.len() as int].content_key == k);
            assert(false);
        }
        if ir < entries.len() {
            assert(merged[ir] == entries[ir]);
            assert(false);
        }
    } else {
        assert(merged == entries.update(i0, entry));
        assert(merged[i0] == entry);
        if ir == -1 {
            assert(merged[i0].content_key == k);
            assert(false);
        }
        if ir < i0 {
            assert(merged[ir] == entries[ir]);
            assert(false);
        }
        if ir > i0 {
            assert(merged[i0].content_key != k);
            assert(false);
        }
    }
}

/// A keyed write touches no other key: for every other key, whether an
/// entry is present, where it stands and what it holds are unchanged.
pub proof fn lemma_upsert_other_key(entries: Seq<EntryView>, entry: EntryView, key: Seq<char>)
    requires
        key != entry.content_key,
    ensures
        entry_index(upsert_seq(entries, entry), key) == entry_index(entries, key),
        entry_index(entries, key) >= 0 ==> upsert_seq(entries, entry)[entry_index(entries, key)]
            == entries[entry_index(entries, key)],
{
    let i0 = entry_index(entries, entry.content_key);
    let j0 = entry_index(entries, key);
    let merged = upsert_seq(entries, entry);
    lemma_entry_index(entries, entry.content_key);
    lemma_entry_index(entries, key);
    lemma_entry_index(merged, key);
    let jr = entry_index(merged, key);
    if j0 == -1 {
        if jr >= 0 {
            if i0 >= 0 {
                assert(merged == entries.update(i0, entry));
                assert(jr != i0);
                assert(merged[jr] == entries[jr]);
            } else {
                assert(merged == entries.push(entry));
                if jr < entries.len() {
                    assert(merged[jr] == entries[jr]);
                } else {
                    assert(merged[jr] == entry);
                }
            }
            assert(false);
        }
    } else {
        assert(entries[j0].content_key == key);
        assert(j0 != i0);
        if i0 >= 0 {
            assert(merged == entries.update(i0, entry));
        } else {
            assert(merged == entries.push(entry));
        }
        assert(merged[j0] == entries[j0]);
        if jr == -1 {
            assert(merged[j0].content_key == key);
            assert(false);
        }
        if jr < j0 {
            assert(merged[jr].content_key == key);
            if jr == i0 {
                assert(merged[jr] == entry);
                assert(false);
            } else {
                assert(merged[jr] == entries[jr]);
                assert(false);
            }
        }
        if jr > j0 {
            assert(merged[j0].content_key != key);
            assert(false);
        }
    }
}

/// The entries a device owns, the empty sequence when none were pushed.
pub open spec fn spec_device_entries(
    ledger: Map<Seq<char>, Seq<EntryView>>,
    device_id: Seq<char>,
) -> Seq<EntryView> {
    if ledger.contains_key(device_id) {
        ledger[device_id]
    } else {
        Seq::empty()
    }
}

/// The entries of one device: all owned by it, with pairwise distinct
/// content keys.
pub open spec fn wf_entries(entries: Seq<EntryView>, device_id: Seq<char>) -> bool {
    &&& forall|i: int|
        0 <= i < entries.len() ==> (#[trigger] entries[i]).device_id == device_id
    &&& forall|i: int, j: int|
        0 <= i < j < entries.len() ==> (#[trigger] entries[i]).content_key != (
        #[trigger] entries[j]).content_key
}

/// The ledger table: per device, the records of its stored files.
pub struct ContentLedger {
    m: StringHashMap<Vec<LocalEntry>>,
}

impl View for ContentLedger {
    type V = Map<Seq<char>, Seq<EntryView>>;

    closed spec fn view(&self) -> Map<Seq<char>, Seq<EntryView>> {
        self.m@.map_values(|entries: Vec<LocalEntry>| entry_views(entries@))
    }
}

impl ContentLedger {
    /// Every device's entries are well-formed.
    pub open spec fn wf(self) -> bool {
        forall|device_id: Seq<char>| #[trigger]
            self@.contains_key(device_id) ==> wf_entries(self@[device_id], device_id)
    }

    /// An empty ledger.
    pub fn new() -> (ledger: ContentLedger)
        ensures
            ledger@ == Map::<Seq<char>, Seq<EntryView>>::empty(),
            ledger.wf(),
    {
        let ledger = ContentLedger { m: StringHashMap::new() };
        proof {
            assert(ledger@ =~= Map::<Seq<char>, Seq<EntryView>>::empty());
        }
        ledger
    }

    /// Writes one entry for its device: replaces the entry already
    /// addressed by the same content key, or appends when the path is new.
    pub fn upsert(&mut self, device_id: &String, entry: LocalEntry)
        requires
            old(self).wf(),
            entry@.device_id == device_id@,
        ensures
            final(self).wf(),
            final(self)@ == old(self)@.insert(
                device_id@,
                upsert_seq(spec_device_entries(old(self)@, device_id@), entry@),
            ),
    {
        let ghost prior = spec_device_entries(old(self)@, device_id@);
        let new_entries: Vec<LocalEntry> = match self.m.get(device_id.as_str()) {
            None => {
                proof {
                    assert(!old(self)@.contains_key(device_id@));
                }
                let mut list: Vec<LocalEntry> = Vec::new();
                list.push(entry);
                proof {
                    assert(entry_views(list@) =~= upsert_seq(prior, entry@));
                }
                list
            },
            Some(entries) => {
                proof {
                    assert(old(self)@.contains_key(device_id@));
                    assert(prior == entry_views(entries@));
                }
                let n = entries.len();
                let mut list: Vec<LocalEntry> = Vec::new();
                let mut replaced = false;
                for i in 0..n
                    invariant
                        n == entries@.len(),
                        old(self).wf(),
                        old(self)@.contains_key(device_id@),
                        prior == spec_device_entries(old(self)@, device_id@),
                        prior == entry_views(entries@),
                        list@.len() == i,
                        forall|j: int|
                            0 <= j < i ==> (#[trigger] list@[j])@ == (if prior[j].content_key
                                == entry@.content_key {
                                entry@
                            } else {
                                prior[j]
                            }),
                        replaced == exists|j: int|
                            0 <= j < i && (#[trigger] prior[j]).content_key == entry@.content_key,
                {
                    proof {
                        assert(wf_entries(prior, device_id@));
                        assert(prior[i as int] == entries@[i as int]@);
                    }
                    let current = &entries[i];
                    if !replaced && current.content_key == entry.content_key {
                        list.push(entry.duplicate());
                        replaced = true;
                    } else {
                        list.push(current.duplicate());
                    }
                }
                if !replaced {
                    list.push(entry);
                }
                proof {
                    lemma_entry_index(prior, entry@.content_key);
                    assert(wf_entries(prior, device_id@));
                    let i = entry_index(prior, entry@.content_key);
                    if i == -1 {
                        assert(entry_views(list@) =~= upsert_seq(prior, entry@));
                    } else {
                        assert(forall|j: int|
                            0 <= j < prior.len() && j != i ==> (#[trigger] prior[j]).content_key
                                != entry@.content_key);
                        assert(entry_views(list@) =~= prior.update(i, entry@));
                    }
                }
                list
            },
        };
        self.m.insert(device_id.clone(), new_entries);
        proof {
            assert(self@ =~= old(self)@.insert(
                device_id@,
                upsert_seq(prior, entry@),
            ));
        }
    }

    /// Finds the entry of `device_id` addressed by `content_key`.
    pub fn find<'a>(&'a self, device_id: &String, content_key: &String) -> (result: Option<
        &'a LocalEntry,
    >)
        ensures
            (match result {
                Some(entry) => entry_index(spec_device_entries(self@, device_id@), content_key@)
                    >= 0 && entry@ == spec_device_entries(self@, device_id@)[entry_index(
                    spec_device_entries(self@, device_id@),
                    content_key@,
                )],
                None => entry_index(spec_device_entries(self@, device_id@), content_key@) == -1,
            }),
    {
        let ghost views = spec_device_entries(self@, device_id@);
        match self.m.get(device_id.as_str()) {
            None => {
                proof {
                    assert(!self@.contains_key(device_id@));
                }
                None
            },
            Some(entries) => {
                proof {
                    assert(views == entry_views(entries@));
                }
                let n = entries.len();
                for i in 0..n
                    invariant
                        n == entries@.len(),
                        views == entry_views(entries@),
                        views == spec_device_entries(self@, device_id@),
                        forall|j: int|
                            0 <= j < i ==> (#[trigger] views[j]).content_key != content_key@,
                {
                    proof {
                        assert(views[i as int] == entries@[i as int]@);
                    }
                    let current = &entries[i];
                    if current.content_key == *content_key {
                        proof {
                            lemma_entry_index(views, content_key@);
                            let idx = entry_index(views, content_key@);
                            assert(views[i as int].content_key == content_key@);
                            if idx < i as int {
                                assert(views[idx].content_key == content_key@);
                                assert(false);
                            }
                            if idx > i as int {
                                assert(views[i as int].content_key != content_key@);
                                assert(false);
                            }
                        }
                        return Some(current);
                    }
                }
                proof {
                    lemma_entry_index(views, content_key@);
                }
                None
            },
        }
    }

    /// How many entries the device owns.
    pub fn entry_count(&self, device_id: &String) -> (n: usize)
        ensures
            n == spec_device_entries(self@, device_id@).len(),
    {
        match self.m.get(device_id.as_str()) {
            None => 0,
            Some(entries) => entries.len(),
        }
    }

    /// Owned copies of every entry of the device, in ledger order.
    pub fn entries_for(&self, device_id: &String) -> (list: Vec<LocalEntry>)
        ensures
            entry_views(list@) == spec_device_entries(self@, device_id@),
    {
        let mut list: Vec<LocalEntry> = Vec::new();
        let ghost views = spec_device_entries(self@, device_id@);
        match self.m.get(device_id.as_str()) {
            None => {
                proof {
                    assert(entry_views(list@) =~= views);
                }
            },
            Some(entries) => {
                let n = entries.len();
                for i in 0..n
                    invariant
                        n == entries@.len(),
                        views == entry_views(entries@),
                        list@.len() == i,
                        forall|j: int| 0 <= j < i ==> entry_views(list@)[j] == views[j],
                {
                    list.push(entries[i].duplicate());
                }
                proof {
                    assert(entry_views(list@) =~= views);
                }
            },
        }
        list
    }
}

} // verus!

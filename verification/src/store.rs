//! The snapshot store: a snapshot records, for one test function, the
//! originating source file (as path components), the module path, the test
//! function name and the recorded value. A snapshot file maps keys of the
//! form `<module>::<test_function>` to such records, with unique keys.
//!
//! Everything here is pure logic over loaded contents: resolving the
//! snapshot file location, deriving the key, looking a record up and
//! comparing it, and merging an update into the mapping. Opening, locking,
//! reading and rewriting the file itself — and encoding the mapping as a
//! document — happen outside the library, which is handed the decoded
//! contents (or the fact that the file was missing, empty or corrupt).

use vstd::prelude::*;

use crate::json::{json_clone, json_eq, json_view, JsonM, JsonValue};
use crate::util::{clone_string, clone_strings, strings_eq};

verus! {

/// Marker for types a snapshot can record. The store itself works on the
/// document model, which is the one recordable form.
pub trait Snapable {

}

impl Snapable for JsonValue {

}

/// One recorded snapshot.
#[derive(Debug)]
pub struct Snapshot {
    /// The originating source file, one path component per element.
    pub file: Vec<String>,
    /// The module path of the test function, `::`-separated.
    pub module: String,
    /// The test function's own name.
    pub test_function: String,
    /// The value the test recorded.
    pub recorded_value: JsonValue,
}

/// Mathematical model of `Snapshot`.
pub struct SnapshotM {
    pub file: Seq<Seq<char>>,
    pub module: Seq<char>,
    pub test_function: Seq<char>,
    pub recorded_value: JsonM,
}

impl DeepView for Snapshot {
    type V = SnapshotM;

    open spec fn deep_view(&self) -> SnapshotM {
        SnapshotM {
            file: self.file.deep_view(),
            module: self.module@,
            test_function: self.test_function@,
            recorded_value: json_view(self.recorded_value),
        }
    }
}

/// The key a snapshot is stored under.
pub open spec fn spec_module_key(module: Seq<char>, test_function: Seq<char>) -> Seq<char> {
    module + "::"@ + test_function
}

/// The key of a modeled snapshot.
pub open spec fn key_of(s: SnapshotM) -> Seq<char> {
    spec_module_key(s.module, s.test_function)
}

/// Whether a segment of a path is kept as a component: empty segments and
/// bare `.` segments are dropped.
pub open spec fn spec_keep_segment(seg: Seq<char>) -> Seq<Seq<char>> {
    if seg.len() == 0 || (seg.len() == 1 && seg[0] == '.') {
        Seq::empty()
    } else {
        seq![seg]
    }
}

/// The path components of `s` from position `i` on, with `cur` the segment
/// read so far: segments are separated by `/`.
pub open spec fn spec_components_from(s: Seq<char>, i: int, cur: Seq<char>) -> Seq<Seq<char>>
    decreases s.len() - i,
{
    if 0 <= i < s.len() {
        if s[i] == '/' {
            spec_keep_segment(cur) + spec_components_from(s, i + 1, Seq::empty())
        } else {
            spec_components_from(s, i + 1, cur.push(s[i]))
        }
    } else {
        spec_keep_segment(cur)
    }
}

/// The components of a path: the non-empty, non-`.` segments between `/`
/// separators, in order.
pub open spec fn path_components(s: Seq<char>) -> Seq<Seq<char>> {
    spec_components_from(s, 0, Seq::empty())
}

/// Split a path into its components.
fn split_path_components(file: &str) -> (r: Vec<String>)
    ensures
        r.deep_view() == path_components(file@),
{
    let n = file.unicode_len();
    let mut comps: Vec<String> = Vec::new();
    let mut start: usize = 0;
    let mut i: usize = 0;
    assert(file@.subrange(0, 0) =~= Seq::<char>::empty());
    assert(comps.deep_view() + path_components(file@) =~= path_components(file@));
    while i < n
        invariant
            n == file@.len(),
            start <= i <= n,
            comps.deep_view() + spec_components_from(
                file@,
                i as int,
                file@.subrange(start as int, i as int),
            ) =~= path_components(file@),
        decreases n - i,
    {
        let ghost cur = file@.subrange(start as int, i as int);
        if file.get_char(i) == '/' {
            let ghost prev = comps.deep_view();
            push_segment(&mut comps, file, start, i);
            assert(comps.deep_view() + spec_components_from(file@, i + 1, Seq::empty()) =~= prev
                + spec_components_from(file@, i as int, cur));
            start = i + 1;
            assert(file@.subrange(start as int, start as int) =~= Seq::<char>::empty());
        } else {
            assert(file@.subrange(start as int, (i + 1) as int) =~= cur.push(file@[i as int]));
        }
        i = i + 1;
    }
    push_segment(&mut comps, file, start, n);
    assert(comps.deep_view() =~= path_components(file@));
    comps
}

/// Append the segment `file[start..end]` to `comps` when it is kept.
fn push_segment(comps: &mut Vec<String>, file: &str, start: usize, end: usize)
    requires
        start <= end,
        end <= file@.len(),
    ensures
        final(comps).deep_view() == old(comps).deep_view() + spec_keep_segment(
            file@.subrange(start as int, end as int),
        ),
{
    let seg = file.substring_char(start, end);
    let len = seg.unicode_len();
    if len == 0 || (len == 1 && seg.get_char(0) == '.') {
        assert(comps.deep_view() =~= old(comps).deep_view() + spec_keep_segment(
            file@.subrange(start as int, end as int),
        ));
    } else {
        comps.push(seg.to_owned());
        assert(comps.deep_view() =~= old(comps).deep_view() + spec_keep_segment(
            file@.subrange(start as int, end as int),
        ));
    }
}

impl Snapshot {
    /// Build the snapshot for one test: the source file path is broken into
    /// components; the rest is stored as given.
    pub fn new(
        file: String,
        module: String,
        test_function: String,
        recorded_value: JsonValue,
    ) -> (r: Snapshot)
        ensures
            r.deep_view() == (SnapshotM {
                file: path_components(file@),
                module: module@,
                test_function: test_function@,
                recorded_value: json_view(recorded_value),
            }),
    {
        let components = split_path_components(file.as_str());
        Snapshot { file: components, module, test_function, recorded_value }
    }

    /// The key this snapshot is stored under:
    /// `<module>::<test_function>`.
    pub fn module_key(&self) -> (r: String)
        ensures
            r@ == spec_module_key(self.module@, self.test_function@),
            r@ == key_of(self.deep_view()),
    {
        let mut key = String::new();
        key.append(self.module.as_str());
        key.append("::");
        key.append(self.test_function.as_str());
        assert(key@ =~= spec_module_key(self.module@, self.test_function@));
        key
    }

    /// A copy of this snapshot with the same model.
    pub fn clone_snapshot(&self) -> (r: Snapshot)
        ensures
            r.deep_view() == self.deep_view(),
    {
        Snapshot {
            file: clone_strings(&self.file),
            module: clone_string(&self.module),
            test_function: clone_string(&self.test_function),
            recorded_value: json_clone(&self.recorded_value),
        }
    }
}

/// Where a snapshot file lives, as path components: the snapshot for a
/// source file `<dir>/<name>` is kept at `<dir>/__snapshots__/<name>.snap`.
#[derive(Debug)]
pub struct SnapFileSpec {
    /// The snapshot directory, relative to the manifest directory.
    pub dir: Vec<String>,
    /// The snapshot file, relative to the manifest directory.
    pub relative_path: Vec<String>,
    /// The snapshot file, with the manifest directory in front.
    pub absolute_path: Vec<String>,
}

/// The directory the snapshot file for `file` lives in: the source file's
/// own directory plus the fixed snapshot subdirectory.
pub open spec fn spec_snap_dir(file: Seq<Seq<char>>) -> Seq<Seq<char>> {
    file.take(file.len() - 1).push("__snapshots__"@)
}

/// The snapshot file's name: the source file's own name with the fixed
/// extension appended.
pub open spec fn spec_snap_filename(file: Seq<Seq<char>>) -> Seq<char> {
    file.last() + ".snap"@
}

/// The snapshot file's path, relative to the manifest directory.
pub open spec fn spec_relative_path(file: Seq<Seq<char>>) -> Seq<Seq<char>> {
    spec_snap_dir(file).push(spec_snap_filename(file))
}

impl Snapshot {
    /// Where this snapshot's file lives. The source file must have at
    /// least its own name as a component.
    pub fn path(&self, manifest_dir: &str) -> (r: SnapFileSpec)
        requires
            self.file@.len() > 0,
        ensures
            r.dir.deep_view() == spec_snap_dir(self.deep_view().file),
            r.relative_path.deep_view() == spec_relative_path(self.deep_view().file),
            r.absolute_path.deep_view() == seq![manifest_dir@] + spec_relative_path(
                self.deep_view().file,
            ),
    {
        let n = self.file.len();
        let mut dir: Vec<String> = Vec::new();
        let mut i: usize = 0;
        while i < n - 1
            invariant
                n == self.file@.len(),
                0 < n,
                i <= n - 1,
                dir@.len() == i,
                forall|k: int| 0 <= k < i ==> dir@[k]@ == self.file@[k]@,
            decreases n - i,
        {
            dir.push(clone_string(&self.file[i]));
            i = i + 1;
        }
        dir.push(String::from_str("__snapshots__"));
        assert(dir.deep_view() =~= spec_snap_dir(self.deep_view().file));

        let mut filename = clone_string(&self.file[n - 1]);
        filename.append(".snap");
        assert(self.file.deep_view().last() == self.file@[n - 1 as int]@);
        assert(filename@ == spec_snap_filename(self.deep_view().file));

        let mut relative_path = clone_strings(&dir);
        relative_path.push(clone_string(&filename));
        assert(relative_path.deep_view() =~= spec_relative_path(self.deep_view().file));

        let mut absolute_path: Vec<String> = Vec::new();
        absolute_path.push(manifest_dir.to_owned());
        let mut j: usize = 0;
        while j < relative_path.len()
            invariant
                absolute_path@.len() == j + 1,
                j <= relative_path@.len(),
                absolute_path@[0]@ == manifest_dir@,
                forall|k: int| 0 <= k < j ==> absolute_path@[k + 1]@ == relative_path@[k]@,
            decreases relative_path@.len() - j,
        {
            absolute_path.push(clone_string(&relative_path[j]));
            j = j + 1;
        }
        assert(absolute_path.deep_view() =~= seq![manifest_dir@] + relative_path.deep_view());

        SnapFileSpec { dir, relative_path, absolute_path }
    }
}

/// The components of a path joined with `/` separators.
pub open spec fn spec_join_path(parts: Seq<Seq<char>>) -> Seq<char>
    decreases parts.len(),
{
    if parts.len() == 0 {
        Seq::empty()
    } else if parts.len() == 1 {
        parts[0]
    } else {
        spec_join_path(parts.drop_last()) + seq!['/'] + parts.last()
    }
}

/// Join path components with `/` separators, for handing to the
/// filesystem.
pub fn join_path(parts: &Vec<String>) -> (r: String)
    ensures
        r@ == spec_join_path(parts.deep_view()),
{
    let mut out = String::new();
    let mut i: usize = 0;
    while i < parts.len()
        invariant
            i <= parts@.len(),
            out@ == spec_join_path(parts.deep_view().take(i as int)),
        decreases parts@.len() - i,
    {
        if i > 0 {
            out.append("/");
        }
        out.append(parts[i].as_str());
        proof {
            reveal_strlit("/");
            assert("/"@ =~= seq!['/']);
            assert(parts.deep_view().take(i + 1).drop_last() =~= parts.deep_view().take(i as int));
            assert(parts.deep_view().take(i + 1).last() == parts@[i as int]@);
            assert(out@ =~= spec_join_path(parts.deep_view().take(i + 1)));
        }
        i = i + 1;
    }
    assert(parts.deep_view().take(parts@.len() as int) =~= parts.deep_view());
    out
}

/// One key/snapshot pair of a snapshot file.
#[derive(Debug)]
pub struct SnapEntry {
    pub key: String,
    pub snapshot: Snapshot,
}

/// The decoded contents of one snapshot file: a mapping from key to
/// snapshot, held as a list of entries whose keys are unique.
#[derive(Debug)]
pub struct SnapFileContents {
    pub entries: Vec<SnapEntry>,
}

/// The mapping a list of entries spells, later entries winning (with
/// unique keys no two entries compete).
pub open spec fn entries_map(s: Seq<SnapEntry>) -> Map<Seq<char>, SnapshotM>
    decreases s.len(),
{
    if s.len() == 0 {
        Map::empty()
    } else {
        entries_map(s.drop_last()).insert(s.last().key@, s.last().snapshot.deep_view())
    }
}

/// Keys are unique across the entries.
pub open spec fn entries_wf(s: Seq<SnapEntry>) -> bool {
    forall|i: int, j: int| 0 <= i < j < s.len() ==> s[i].key@ != s[j].key@
}

/// The mapping contains a key exactly when some entry carries it.
proof fn lemma_entries_map_contains(s: Seq<SnapEntry>, k: Seq<char>)
    ensures
        entries_map(s).contains_key(k) <==> exists|i: int| 0 <= i < s.len() && s[i].key@ == k,
    decreases s.len(),
{
    if s.len() > 0 {
        lemma_entries_map_contains(s.drop_last(), k);
        if s.last().key@ == k {
            assert(s[s.len() - 1].key@ == k);
        } else {
            if exists|i: int| 0 <= i < s.len() - 1 && s.drop_last()[i].key@ == k {
                let i = choose|i: int| 0 <= i < s.len() - 1 && s.drop_last()[i].key@ == k;
                assert(s[i].key@ == k);
            }
            if exists|i: int| 0 <= i < s.len() && s[i].key@ == k {
                let i = choose|i: int| 0 <= i < s.len() && s[i].key@ == k;
                assert(s.drop_last()[i].key@ == k);
            }
        }
    }
}

/// With unique keys, each entry is found in the mapping under its own key,
/// with its own snapshot.
proof fn lemma_entries_map_index(s: Seq<SnapEntry>, i: int)
    requires
        entries_wf(s),
        0 <= i < s.len(),
    ensures
        entries_map(s).contains_key(s[i].key@),
        entries_map(s)[s[i].key@] == s[i].snapshot.deep_view(),
    decreases s.len(),
{
    if i == s.len() - 1 {
    } else {
        assert(entries_wf(s.drop_last()));
        lemma_entries_map_index(s.drop_last(), i);
        assert(s.drop_last()[i] == s[i]);
        assert(s[i].key@ != s.last().key@);
    }
}

/// With unique keys, the mapping has exactly one key per entry.
proof fn lemma_entries_map_len(s: Seq<SnapEntry>)
    requires
        entries_wf(s),
    ensures
        entries_map(s).dom().finite(),
        entries_map(s).dom().len() == s.len(),
    decreases s.len(),
{
    if s.len() > 0 {
        assert(entries_wf(s.drop_last()));
        lemma_entries_map_len(s.drop_last());
        lemma_entries_map_contains(s.drop_last(), s.last().key@);
        assert forall|i: int| 0 <= i < s.len() - 1 implies s.drop_last()[i].key@ != s.last().key@ by {
            assert(s[i].key@ != s[s.len() - 1].key@);
        }
    }
}

impl SnapFileContents {
    /// Keys are unique across the entries.
    pub open spec fn wf(&self) -> bool {
        entries_wf(self.entries@)
    }

    /// The mapping this snapshot file spells.
    pub open spec fn as_map(&self) -> Map<Seq<char>, SnapshotM> {
        entries_map(self.entries@)
    }

    /// An empty mapping: what a missing or empty snapshot file stands for
    /// when an update begins.
    pub fn new() -> (r: SnapFileContents)
        ensures
            r.wf(),
            r.as_map() == Map::<Seq<char>, SnapshotM>::empty(),
            r.entries@.len() == 0,
    {
        SnapFileContents { entries: Vec::new() }
    }

    /// How many snapshots the file holds; with unique keys this is exactly
    /// the number of keys of the mapping.
    pub fn len(&self) -> (r: usize)
        requires
            self.wf(),
        ensures
            r == self.entries@.len(),
            r == self.as_map().dom().len(),
            self.as_map().dom().finite(),
    {
        proof {
            lemma_entries_map_len(self.entries@);
        }
        self.entries.len()
    }

    /// The snapshot stored under `key`, if any.
    pub fn lookup(&self, key: &String) -> (r: Option<&Snapshot>)
        requires
            self.wf(),
        ensures
            match r {
                Some(snap) => self.as_map().contains_key(key@) && snap.deep_view()
                    == self.as_map()[key@],
                None => !self.as_map().contains_key(key@),
            },
    {
        let mut i: usize = 0;
        while i < self.entries.len()
            invariant
                i <= self.entries@.len(),
                forall|k: int| 0 <= k < i ==> self.entries@[k].key@ != key@,
                self.wf(),
            decreases self.entries@.len() - i,
        {
            if self.entries[i].key.eq(key) {
                proof {
                    lemma_entries_map_index(self.entries@, i as int);
                }
                return Some(&self.entries[i].snapshot);
            }
            i = i + 1;
        }
        proof {
            lemma_entries_map_contains(self.entries@, key@);
        }
        None
    }

    /// Record `snapshot` under `key`: an existing entry with the same key
    /// is replaced, any other key keeps its snapshot, and no second entry
    /// for `key` ever appears.
    pub fn insert(&mut self, key: String, snapshot: Snapshot)
        requires
            old(self).wf(),
        ensures
            final(self).wf(),
            final(self).as_map() == old(self).as_map().insert(key@, snapshot.deep_view()),
            final(self).entries@.len() == old(self).entries@.len() + (
            if old(self).as_map().contains_key(key@) {
                0int
            } else {
                1int
            }),
    {
        let ghost s0 = self.entries@;
        let mut i: usize = 0;
        while i < self.entries.len()
            invariant
                i <= self.entries@.len(),
                self.entries@ == s0,
                s0 == old(self).entries@,
                forall|k: int| 0 <= k < i ==> self.entries@[k].key@ != key@,
                entries_wf(s0),
            decreases self.entries@.len() - i,
        {
            if self.entries[i].key.eq(&key) {
                proof {
                    assert(s0[i as int].key@ == key@);
                    lemma_entries_map_contains(s0, key@);
                    lemma_entries_map_update(s0, i as int, key@, snapshot.deep_view());
                }
                let entry = SnapEntry { key, snapshot };
                let ghost e = entry;
                self.entries[i] = entry;
                assert(self.entries@ == s0.update(i as int, e));
                assert(entries_wf(s0.update(i as int, e)) && entries_map(s0.update(i as int, e))
                    == entries_map(s0).insert(e.key@, e.snapshot.deep_view()));
                return ;
            }
            i = i + 1;
        }
        proof {
            lemma_entries_map_contains(s0, key@);
        }
        let entry = SnapEntry { key, snapshot };
        self.entries.push(entry);
        assert(self.entries@.drop_last() =~= s0);
    }
}

/// What reading a snapshot file yielded, as the caller hands it in: the
/// file may be absent, present but empty, present but not decodable, or
/// decoded into contents.
#[derive(Debug)]
pub enum SnapFileLoad {
    Missing,
    Empty,
    Corrupt,
    Parsed(SnapFileContents),
}

/// Mathematical model of `SnapFileLoad`.
pub enum LoadM {
    Missing,
    Empty,
    Corrupt,
    Parsed(Map<Seq<char>, SnapshotM>),
}

impl SnapFileLoad {
    /// Model of a load; decoded contents are modeled by their mapping.
    pub open spec fn model(&self) -> LoadM {
        match self {
            SnapFileLoad::Missing => LoadM::Missing,
            SnapFileLoad::Empty => LoadM::Empty,
            SnapFileLoad::Corrupt => LoadM::Corrupt,
            SnapFileLoad::Parsed(c) => LoadM::Parsed(c.as_map()),
        }
    }

    /// Decoded contents must carry their key-uniqueness invariant.
    pub open spec fn wf(&self) -> bool {
        match self {
            SnapFileLoad::Parsed(c) => c.wf(),
            _ => true,
        }
    }
}

/// Why a check or an update failed.
#[derive(Debug)]
pub enum StoreError {
    /// The snapshot file could not be read at all: a check demands an
    /// explicit prior update, so a missing file is an error, not an empty
    /// store.
    Io,
    /// The snapshot file exists but does not decode as a snapshot mapping.
    /// An update never overwrites such a file: that would destroy the
    /// unrelated snapshots recorded in it.
    Parse,
    /// The mapping holds no entry for this key.
    Lookup { key: String },
    /// The entry's recorded source file, module path or test function
    /// disagrees with the test's own: store corruption, not a stale value.
    Metadata,
    /// The recorded value differs from the freshly computed one — the
    /// snapshot is stale. Both values are carried for display.
    Mismatch { recorded: JsonValue, current: JsonValue },
}

/// Model of what a check decided.
pub enum CheckOutcome {
    Passes,
    NoFile,
    BadFile,
    UnknownKey(Seq<char>),
    BadMetadata,
    Stale(JsonM, JsonM),
}

/// The outcome a check result stands for.
pub open spec fn check_outcome_of(r: Result<(), StoreError>) -> CheckOutcome {
    match r {
        Ok(u) => CheckOutcome::Passes,
        Err(e) => match e {
            StoreError::Io => CheckOutcome::NoFile,
            StoreError::Parse => CheckOutcome::BadFile,
            StoreError::Lookup { key } => CheckOutcome::UnknownKey(key@),
            StoreError::Metadata => CheckOutcome::BadMetadata,
            StoreError::Mismatch { recorded, current } => CheckOutcome::Stale(
                json_view(recorded),
                json_view(current),
            ),
        },
    }
}

/// What checking snapshot `s` against a loaded file decides: a missing
/// file fails as an input/output error, an empty or undecodable file as a
/// parse error; otherwise the key must be present, the recorded metadata
/// must agree, and the recorded value must equal the fresh one.
pub open spec fn spec_check(s: SnapshotM, load: LoadM) -> CheckOutcome {
    match load {
        LoadM::Missing => CheckOutcome::NoFile,
        LoadM::Empty => CheckOutcome::BadFile,
        LoadM::Corrupt => CheckOutcome::BadFile,
        LoadM::Parsed(m) => if !m.contains_key(key_of(s)) {
            CheckOutcome::UnknownKey(key_of(s))
        } else {
            let prev = m[key_of(s)];
            if prev.file != s.file || prev.module != s.module || prev.test_function
                != s.test_function {
                CheckOutcome::BadMetadata
            } else if prev.recorded_value != s.recorded_value {
                CheckOutcome::Stale(prev.recorded_value, s.recorded_value)
            } else {
                CheckOutcome::Passes
            }
        },
    }
}

/// The mapping after snapshot `s` is recorded into mapping `m`.
pub open spec fn spec_store(s: SnapshotM, m: Map<Seq<char>, SnapshotM>) -> Map<
    Seq<char>,
    SnapshotM,
> {
    m.insert(key_of(s), s)
}

/// What updating decides for a loaded file: a missing or empty file is a
/// first write and starts from the empty mapping; an undecodable file is
/// fatal; otherwise the update merges into the decoded mapping.
pub open spec fn spec_store_load(s: SnapshotM, load: LoadM) -> Option<Map<Seq<char>, SnapshotM>> {
    match load {
        LoadM::Missing => Some(spec_store(s, Map::empty())),
        LoadM::Empty => Some(spec_store(s, Map::empty())),
        LoadM::Corrupt => None,
        LoadM::Parsed(m) => Some(spec_store(s, m)),
    }
}

impl Snapshot {
    /// Check this snapshot against the loaded snapshot file, exactly as
    /// `spec_check` spells it out.
    pub fn check_snapshot(&self, load: &SnapFileLoad) -> (r: Result<(), StoreError>)
        requires
            load.wf(),
        ensures
            check_outcome_of(r) == spec_check(self.deep_view(), load.model()),
    {
        match load {
            SnapFileLoad::Missing => Err(StoreError::Io),
            SnapFileLoad::Empty => Err(StoreError::Parse),
            SnapFileLoad::Corrupt => Err(StoreError::Parse),
            SnapFileLoad::Parsed(contents) => {
                let key = self.module_key();
                match contents.lookup(&key) {
                    None => Err(StoreError::Lookup { key }),
                    Some(prev) => {
                        if !(strings_eq(&prev.file, &self.file) && prev.module.eq(&self.module)
                            && prev.test_function.eq(&self.test_function)) {
                            Err(StoreError::Metadata)
                        } else if !json_eq(&prev.recorded_value, &self.recorded_value) {
                            Err(
                                StoreError::Mismatch {
                                    recorded: json_clone(&prev.recorded_value),
                                    current: json_clone(&self.recorded_value),
                                },
                            )
                        } else {
                            Ok(())
                        }
                    },
                }
            },
        }
    }

    /// Merge this snapshot into the loaded snapshot file, exactly as
    /// `spec_store_load` spells it out: the result is the contents to be
    /// written back in full.
    pub fn update_snapshot(&self, load: SnapFileLoad) -> (r: Result<SnapFileContents, StoreError>)
        requires
            load.wf(),
        ensures
            match r {
                Ok(c) => c.wf() && spec_store_load(self.deep_view(), load.model()) == Some(
                    c.as_map(),
                ),
                Err(e) => e is Parse && spec_store_load(self.deep_view(), load.model())
                    is None,
            },
    {
        match load {
            SnapFileLoad::Corrupt => Err(StoreError::Parse),
            SnapFileLoad::Missing => {
                let mut contents = SnapFileContents::new();
                contents.insert(self.module_key(), self.clone_snapshot());
                Ok(contents)
            },
            SnapFileLoad::Empty => {
                let mut contents = SnapFileContents::new();
                contents.insert(self.module_key(), self.clone_snapshot());
                Ok(contents)
            },
            SnapFileLoad::Parsed(contents) => {
                let mut contents = contents;
                contents.insert(self.module_key(), self.clone_snapshot());
                Ok(contents)
            },
        }
    }
}

/// Round trip: once `update` has recorded snapshot `s`, a `check` of the
/// same snapshot passes — whatever the mapping held before — and a check
/// of a snapshot that computed any other value fails as stale, carrying
/// the recorded and the fresh value.
pub proof fn lemma_update_then_check(s: SnapshotM, s2: SnapshotM, m: Map<Seq<char>, SnapshotM>)
    requires
        s2.file == s.file,
        s2.module == s.module,
        s2.test_function == s.test_function,
    ensures
        spec_check(s, LoadM::Parsed(spec_store(s, m))) == CheckOutcome::Passes,
        s2.recorded_value != s.recorded_value ==> spec_check(s2, LoadM::Parsed(spec_store(s, m)))
            == CheckOutcome::Stale(s.recorded_value, s2.recorded_value),
{
    assert(key_of(s2) == key_of(s));
}

/// Idempotence: recording the same snapshot twice leaves exactly the
/// mapping one recording leaves — same keys, same snapshots, no growth.
pub proof fn lemma_update_idempotent(s: SnapshotM, m: Map<Seq<char>, SnapshotM>)
    ensures
        spec_store(s, spec_store(s, m)) == spec_store(s, m),
{
    assert(spec_store(s, spec_store(s, m)) =~= spec_store(s, m));
}

/// Updates under two different keys both persist: starting from nothing,
/// recording `s1` and then `s2` leaves a mapping that holds exactly those
/// two snapshots, each under its own key.
pub proof fn lemma_two_updates_persist(s1: SnapshotM, s2: SnapshotM)
    requires
        key_of(s1) != key_of(s2),
    ensures
        ({
            let m = spec_store(s2, spec_store(s1, Map::empty()));
            &&& m.contains_key(key_of(s1)) && m[key_of(s1)] == s1
            &&& m.contains_key(key_of(s2)) && m[key_of(s2)] == s2
            &&& m.dom().finite() && m.dom().len() == 2
        }),
{
    let m0 = Map::<Seq<char>, SnapshotM>::empty();
    assert(m0.dom() =~= Set::<Seq<char>>::empty());
    let m1 = spec_store(s1, m0);
    assert(m1.dom() =~= m0.dom().insert(key_of(s1)));
    let m = spec_store(s2, m1);
    assert(m.dom() =~= m1.dom().insert(key_of(s2)));
}

/// Replacing the entry that holds `k` updates the mapping at `k` alone.
proof fn lemma_entries_map_update(s: Seq<SnapEntry>, i: int, k: Seq<char>, v: SnapshotM)
    requires
        entries_wf(s),
        0 <= i < s.len(),
        s[i].key@ == k,
    ensures
        forall|e: SnapEntry|
            e.key@ == k && e.snapshot.deep_view() == v ==> entries_wf(s.update(i, e))
                && entries_map(s.update(i, e)) == entries_map(s).insert(k, v),
    decreases s.len(),
{
    assert forall|e: SnapEntry|
        e.key@ == k && e.snapshot.deep_view() == v implies entries_wf(s.update(i, e))
        && entries_map(s.update(i, e)) == entries_map(s).insert(k, v) by {
        assert(entries_wf(s.update(i, e)));
        if i == s.len() - 1 {
            assert(s.update(i, e).drop_last() =~= s.drop_last());
            assert(entries_map(s.update(i, e)) =~= entries_map(s).insert(k, v));
        } else {
            assert(entries_wf(s.drop_last()));
            assert(s.drop_last()[i] == s[i]);
            lemma_entries_map_update(s.drop_last(), i, k, v);
            assert(s.update(i, e).drop_last() =~= s.drop_last().update(i, e));
            assert(s.update(i, e).last() == s.last());
            assert(s[i].key@ != s.last().key@);
            assert(entries_map(s.update(i, e)) =~= entries_map(s).insert(k, v));
        }
    }
}

} // verus!

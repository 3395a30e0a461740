//! Scanning a save: which files it holds, and their digests. A file that has kept its size and
//! its modification time since the previous scan keeps its digest and is not read.

use crate::messages::{failed, failed_text};
use crate::names::archive_name;
use crate::order::{
    arranged, bytes_less, key_less, key_of, key_views, law_texts_are_sorted_by_their_bytes,
    lemma_order_is_complete, lemma_stable_order_exists, positions, rearrange, sort_key,
    stable_order, stable_order_of, SortKey, SortKeyView,
};
use crate::text::{law_replacing_changes_one_character_only, with_char_replaced};
use crate::walk::{
    finds_file, is_file_of_the_save, law_files_are_told_by_kind_and_names, lie_outside_metadata,
    walk_views, WalkStep, WalkStepView, WalkedEntry, WalkedEntryView,
};
use vstd::hash_map::StringHashMap;
use vstd::prelude::*;
use vstd::utf8::encode_utf8;

verus! {

/// A file of a save, as the cache remembers it.
#[derive(Debug, PartialEq, Eq)]
pub struct CachedFileEntry {
    pub path: String,
    pub bytes: u64,
    pub modified_ns: u64,
    pub sha256: String,
}

pub struct CachedFileEntryView {
    pub path: Seq<char>,
    pub bytes: u64,
    pub modified_ns: u64,
    pub sha256: Seq<char>,
}

impl View for CachedFileEntry {
    type V = CachedFileEntryView;

    open spec fn view(&self) -> CachedFileEntryView {
        CachedFileEntryView {
            path: self.path@,
            bytes: self.bytes,
            modified_ns: self.modified_ns,
            sha256: self.sha256@,
        }
    }
}

/// Entries as values of the model.
pub open spec fn entry_views(entries: Seq<CachedFileEntry>) -> Seq<CachedFileEntryView> {
    entries.map_values(|e: CachedFileEntry| e@)
}

/// A file of a save: which step of the walk came across it, its path relative to the save, with
/// the separators of the platform, its size and its modification time.
pub struct FoundFile {
    pub position: usize,
    pub path: String,
    pub bytes: u64,
    pub modified_ns: u64,
}

pub struct FoundFileView {
    pub position: int,
    pub path: Seq<char>,
    pub bytes: u64,
    pub modified_ns: u64,
}

impl View for FoundFile {
    type V = FoundFileView;

    open spec fn view(&self) -> FoundFileView {
        FoundFileView {
            position: self.position as int,
            path: self.path@,
            bytes: self.bytes,
            modified_ns: self.modified_ns,
        }
    }
}

/// Found files as values of the model.
pub open spec fn found_views(files: Seq<FoundFile>) -> Seq<FoundFileView> {
    files.map_values(|f: FoundFile| f@)
}

/// A modification time in nanoseconds since the epoch, at most the greatest 64-bit number; zero
/// when it is not known or lies before the epoch.
pub open spec fn stamp_of(since_epoch: Option<u128>) -> u64 {
    match since_epoch {
        Some(n) => if n <= u64::MAX {
            n as u64
        } else {
            u64::MAX
        },
        None => 0u64,
    }
}

/// The stamp of a modification time.
pub fn modified_stamp(since_epoch: Option<u128>) -> (ns: u64)
    ensures
        ns == stamp_of(since_epoch),
{
    match since_epoch {
        Some(n) => {
            if n <= u64::MAX as u128 {
                n as u64
            } else {
                u64::MAX
            }
        },
        None => 0,
    }
}

/// The file that the step at `i` of a walk came across.
pub open spec fn file_at(walked: Seq<WalkStepView>, i: int) -> FoundFileView {
    let entry = walked[i]->Ok_0;
    FoundFileView {
        position: i,
        path: entry.relative->Ok_0,
        bytes: entry.facts->Ok_0.bytes,
        modified_ns: stamp_of(entry.facts->Ok_0.since_epoch),
    }
}

/// The files of the save among what the first `n` steps of a walk came across, or the first error.
pub open spec fn first_files_of_a_save(walked: Seq<WalkStepView>, n: nat) -> Result<
    Seq<FoundFileView>,
    Seq<char>,
>
    decreases n,
{
    if n == 0 {
        Ok(Seq::empty())
    } else {
        match first_files_of_a_save(walked, (n - 1) as nat) {
            Err(e) => Err(e),
            Ok(files) => match walked[n - 1] {
                Err(e) => Err(failed_text("扫描存档失败"@, e)),
                Ok(entry) => if !is_file_of_the_save(entry) {
                    Ok(files)
                } else if entry.relative is Err {
                    Err(failed_text("生成存档路径失败"@, entry.relative->Err_0))
                } else if entry.facts is Err {
                    Err(failed_text("读取存档元数据失败"@, entry.facts->Err_0))
                } else {
                    Ok(files.push(file_at(walked, n - 1)))
                },
            },
        }
    }
}

/// The files of a save, in the order of the walk through it, or the first error.
pub open spec fn files_in(walked: Seq<WalkStepView>) -> Result<Seq<FoundFileView>, Seq<char>> {
    first_files_of_a_save(walked, walked.len())
}

/// Files or an error, as values of the model.
pub open spec fn files_result(r: Result<Vec<FoundFile>, String>) -> Result<
    Seq<FoundFileView>,
    Seq<char>,
> {
    match r {
        Ok(files) => Ok(found_views(files@)),
        Err(e) => Err(e@),
    }
}

proof fn lemma_walk_error_stays(walked: Seq<WalkStepView>, m: nat, n: nat)
    requires
        m <= n,
        first_files_of_a_save(walked, m) is Err,
    ensures
        first_files_of_a_save(walked, n) == first_files_of_a_save(walked, m),
    decreases n - m,
{
    if m < n {
        lemma_walk_error_stays(walked, m, (n - 1) as nat);
    }
}

/// The file that an entry is, or why it is not known.
fn file_of(position: usize, entry: &WalkedEntry) -> (res: Result<FoundFile, String>)
    ensures
        match res {
            Ok(file) => entry@.relative is Ok && entry@.facts is Ok && file@ == (FoundFileView {
                position: position as int,
                path: entry@.relative->Ok_0,
                bytes: entry@.facts->Ok_0.bytes,
                modified_ns: stamp_of(entry@.facts->Ok_0.since_epoch),
            }),
            Err(e) => if entry@.relative is Err {
                e@ == failed_text("生成存档路径失败"@, entry@.relative->Err_0)
            } else {
                entry@.facts is Err && e@ == failed_text(
                    "读取存档元数据失败"@,
                    entry@.facts->Err_0,
                )
            },
        },
{
    match &entry.relative {
        Err(e) => Err(failed("生成存档路径失败", e.as_str())),
        Ok(path) => match &entry.facts {
            Err(e) => Err(failed("读取存档元数据失败", e.as_str())),
            Ok(facts) => Ok(
                FoundFile {
                    position,
                    path: path.clone(),
                    bytes: facts.bytes,
                    modified_ns: modified_stamp(facts.since_epoch),
                },
            ),
        },
    }
}

/// The files of a save, given the walk through it: of what the walk came across, in its order,
/// those that are files and lie outside the directories of archive metadata.
pub fn files_of_a_save(walked: &Vec<WalkStep>) -> (res: Result<Vec<FoundFile>, String>)
    ensures
        files_result(res) == files_in(walk_views(walked@)),
        res is Ok ==> forall|k: int|
            0 <= k < res->Ok_0@.len() ==> (#[trigger] res->Ok_0@[k]).position < walked@.len(),
{
    let ghost views = walk_views(walked@);
    let mut files: Vec<FoundFile> = Vec::new();
    assert(found_views(files@) == Seq::<FoundFileView>::empty());
    let mut i: usize = 0;
    while i < walked.len()
        invariant
            i <= walked@.len() == views.len(),
            views == walk_views(walked@),
            first_files_of_a_save(views, i as nat) == Ok::<Seq<FoundFileView>, Seq<char>>(
                found_views(files@),
            ),
            forall|k: int| 0 <= k < files@.len() ==> (#[trigger] files@[k]).position < i,
        decreases walked@.len() - i,
    {
        let ghost before = files@;
        proof {
            if first_files_of_a_save(views, (i + 1) as nat) is Err {
                lemma_walk_error_stays(views, (i + 1) as nat, views.len());
            }
        }
        match &walked[i] {
            Err(e) => {
                return Err(failed("扫描存档失败", e.as_str()));
            },
            Ok(entry) => {
                if entry.belongs_to_the_save() {
                    match file_of(i, entry) {
                        Err(e) => {
                            return Err(e);
                        },
                        Ok(file) => {
                            files.push(file);
                            assert(found_views(before.push(file)) == found_views(before).push(
                                file@,
                            ));
                        },
                    }
                }
            },
        }
        i = i + 1;
    }
    Ok(files)
}

pub(crate) proof fn lemma_first_files_of_a_save(walked: Seq<WalkStepView>, n: nat)
    requires
        n <= walked.len(),
        first_files_of_a_save(walked, n) is Ok,
    ensures
        ({
            let files = first_files_of_a_save(walked, n)->Ok_0;
            &&& files.len() <= n
            &&& forall|k: int|
                0 <= k < files.len() ==> {
                    let i = (#[trigger] files[k]).position;
                    0 <= i < n && finds_file(walked, i) && files[k] == file_at(walked, i)
                }
            &&& forall|k: int, l: int|
                0 <= k < l < files.len() ==> (#[trigger] files[k]).position < (
                #[trigger] files[l]).position
            &&& forall|i: int|
                i < n && #[trigger] finds_file(walked, i) ==> exists|k: int|
                    0 <= k < files.len() && (#[trigger] files[k]).position == i
        }),
    decreases n,
{
    if n > 0 {
        lemma_first_files_of_a_save(walked, (n - 1) as nat);
        let before = first_files_of_a_save(walked, (n - 1) as nat)->Ok_0;
        let files = first_files_of_a_save(walked, n)->Ok_0;
        assert forall|i: int| i < n && #[trigger] finds_file(walked, i) implies exists|k: int|
            0 <= k < files.len() && (#[trigger] files[k]).position == i by {
            if i == n - 1 {
                assert(files[before.len() as int].position == i);
            } else {
                let k = choose|k: int|
                    0 <= k < before.len() && (#[trigger] before[k]).position == i;
                assert(files[k].position == i);
            }
        }
    }
}

/// What is scanned are exactly the files of the save: of what the walk came across, each file
/// outside the directories of archive metadata, once, in the order of the walk, as it is now, and
/// nothing else.
pub proof fn law_files_are_those_of_the_save(walked: Seq<WalkStepView>)
    requires
        files_in(walked) is Ok,
    ensures
        ({
            let files = files_in(walked)->Ok_0;
            &&& forall|k: int|
                0 <= k < files.len() ==> {
                    let i = (#[trigger] files[k]).position;
                    finds_file(walked, i) && files[k] == file_at(walked, i)
                }
            &&& forall|k: int, l: int|
                0 <= k < l < files.len() ==> (#[trigger] files[k]).position < (
                #[trigger] files[l]).position
            &&& forall|i: int| #[trigger]
                finds_file(walked, i) ==> exists|k: int|
                    0 <= k < files.len() && (#[trigger] files[k]).position == i
        }),
{
    lemma_first_files_of_a_save(walked, walked.len());
}

/// A found file under the name that it has on every platform.
pub open spec fn named(file: FoundFileView) -> FoundFileView {
    FoundFileView { path: with_char_replaced(file.path, '\\', '/'), ..file }
}

/// Where the last entry for `path` stands.
pub open spec fn last_at(previous: Seq<CachedFileEntryView>, path: Seq<char>) -> Option<int>
    decreases previous.len(),
{
    if previous.len() == 0 {
        None
    } else if previous.last().path == path {
        Some(previous.len() - 1)
    } else {
        last_at(previous.drop_last(), path)
    }
}

/// The digest that `file` had before, when its size and its modification time are as they were.
pub open spec fn known_digest(previous: Seq<CachedFileEntryView>, file: FoundFileView) -> Option<
    Seq<char>,
> {
    match last_at(previous, file.path) {
        Some(i) => if previous[i].bytes == file.bytes && previous[i].modified_ns
            == file.modified_ns {
            Some(previous[i].sha256)
        } else {
            None
        },
        None => None,
    }
}

/// The entry for a file with this digest.
pub open spec fn entry_for(file: FoundFileView, sha256: Seq<char>) -> CachedFileEntryView {
    CachedFileEntryView { path: file.path, bytes: file.bytes, modified_ns: file.modified_ns, sha256 }
}

/// The keys by which entries are sorted: their paths.
pub open spec fn entry_keys(entries: Seq<CachedFileEntryView>) -> Seq<SortKeyView> {
    entries.map_values(|e: CachedFileEntryView| sort_key(e.path, Seq::empty()))
}

/// Entries sorted by path; entries with one path keep their order.
pub open spec fn sorted_entries(entries: Seq<CachedFileEntryView>) -> Seq<CachedFileEntryView> {
    arranged(entries, stable_order_of(entry_keys(entries)))
}

/// Found files under their names.
pub open spec fn named_files(found: Seq<FoundFileView>) -> Seq<FoundFileView> {
    found.map_values(|f: FoundFileView| named(f))
}

/// The positions of files, as the files come one after the other, sorted by path.
pub open spec fn order_of_files(files: Seq<FoundFileView>) -> Seq<int> {
    stable_order_of(files.map_values(|f: FoundFileView| sort_key(f.path, Seq::empty())))
}

/// A scan under way.
pub struct ScanView {
    /// The files, under their names.
    pub files: Seq<FoundFileView>,
    /// What the previous scan found.
    pub previous: Seq<CachedFileEntryView>,
    /// The entries for the files that have been dealt with, in the order of the files.
    pub entries: Seq<CachedFileEntryView>,
    /// Why the scan was given up.
    pub failure: Option<Seq<char>>,
}

/// What a scan does next.
#[derive(Clone, Copy, PartialEq, Eq, Structural)]
pub enum ScanAction {
    /// Keep the digest of the file in hand.
    Keep,
    /// Read the file that the step at this position of the walk came across, and compute its
    /// digest.
    Hash { index: usize },
    /// The scan is over.
    Done,
}

/// What an action of a scan came to.
pub enum ScanEvent {
    Kept,
    Digest(Result<String, String>),
}

pub enum ScanEventView {
    Kept,
    Digest(Result<Seq<char>, Seq<char>>),
}

impl View for ScanEvent {
    type V = ScanEventView;

    open spec fn view(&self) -> ScanEventView {
        match *self {
            ScanEvent::Kept => ScanEventView::Kept,
            ScanEvent::Digest(r) => ScanEventView::Digest(crate::text::text_result(r)),
        }
    }
}

/// A scan at its start.
pub open spec fn scan_start(
    found: Seq<FoundFileView>,
    previous: Seq<CachedFileEntryView>,
) -> ScanView {
    ScanView {
        files: named_files(found),
        previous,
        entries: Seq::empty(),
        failure: None,
    }
}

/// What is to be done next: files are dealt with in order, and only one without a known digest is
/// read.
pub open spec fn scan_action(s: ScanView) -> ScanAction {
    let index = s.entries.len();
    if s.failure is Some || index >= s.files.len() {
        ScanAction::Done
    } else if known_digest(s.previous, s.files[index as int]) is Some {
        ScanAction::Keep
    } else {
        ScanAction::Hash { index: s.files[index as int].position as usize }
    }
}

/// The scan with one more entry.
pub open spec fn with_digest(s: ScanView, sha256: Seq<char>) -> ScanView {
    ScanView {
        entries: s.entries.push(entry_for(s.files[s.entries.len() as int], sha256)),
        ..s
    }
}

/// The scan after an event; one that does not answer the pending action changes nothing.
pub open spec fn scan_next(s: ScanView, event: ScanEventView) -> ScanView {
    match (scan_action(s), event) {
        (ScanAction::Keep, ScanEventView::Kept) => with_digest(
            s,
            known_digest(s.previous, s.files[s.entries.len() as int])->0,
        ),
        (ScanAction::Hash { .. }, ScanEventView::Digest(Ok(sha256))) => with_digest(s, sha256),
        (ScanAction::Hash { .. }, ScanEventView::Digest(Err(e))) => ScanView {
            failure: Some(e),
            ..s
        },
        _ => s,
    }
}

/// What a scan has come to: the error that ended it, or the entries, sorted.
pub open spec fn scan_outcome(s: ScanView) -> Result<Seq<CachedFileEntryView>, Seq<char>> {
    match s.failure {
        Some(e) => Err(e),
        None => Ok(sorted_entries(s.entries)),
    }
}

/// Entries or an error, as values of the model.
pub open spec fn entries_result(r: Result<Vec<CachedFileEntry>, String>) -> Result<
    Seq<CachedFileEntryView>,
    Seq<char>,
> {
    match r {
        Ok(entries) => Ok(entry_views(entries@)),
        Err(e) => Err(e@),
    }
}

/// A scan under way.
pub struct SaveScan {
    files: Vec<FoundFile>,
    previous: Vec<CachedFileEntry>,
    latest: StringHashMap<usize>,
    entries: Vec<CachedFileEntry>,
    failure: Option<String>,
}

impl View for SaveScan {
    type V = ScanView;

    closed spec fn view(&self) -> ScanView {
        ScanView {
            files: found_views(self.files@),
            previous: entry_views(self.previous@),
            entries: entry_views(self.entries@),
            failure: crate::text::text_option(self.failure),
        }
    }
}

/// Whether `latest` finds the last entry for each path.
spec fn finds_latest(
    latest: Map<Seq<char>, usize>,
    previous: Seq<CachedFileEntryView>,
) -> bool {
    &&& forall|path: Seq<char>| #[trigger]
        latest.contains_key(path) <==> last_at(previous, path) is Some
    &&& forall|path: Seq<char>| #[trigger]
        latest.contains_key(path) ==> latest[path] == last_at(previous, path)->0
    &&& forall|path: Seq<char>| #[trigger]
        latest.contains_key(path) ==> latest[path] < previous.len()
}

fn index_latest(previous: &Vec<CachedFileEntry>) -> (latest: StringHashMap<usize>)
    ensures
        finds_latest(latest@, entry_views(previous@)),
{
    let mut latest: StringHashMap<usize> = StringHashMap::new();
    let ghost views = entry_views(previous@);
    let mut i: usize = 0;
    while i < previous.len()
        invariant
            i <= previous@.len(),
            views == entry_views(previous@),
            finds_latest(latest@, views.take(i as int)),
        decreases previous@.len() - i,
    {
        proof {
            assert(views.take(i + 1).drop_last() == views.take(i as int));
            assert(views.take(i + 1).last() == previous@[i as int]@);
        }
        latest.insert(previous[i].path.clone(), i);
        i = i + 1;
    }
    assert(views.take(i as int) == views);
    latest
}

/// The files under the names that they have on every platform.
fn rename_all(found: Vec<FoundFile>) -> (files: Vec<FoundFile>)
    ensures
        found_views(files@) == named_files(found_views(found@)),
{
    let mut files: Vec<FoundFile> = Vec::new();
    let mut i: usize = 0;
    while i < found.len()
        invariant
            i <= found@.len(),
            files@.len() == i,
            forall|k: int| 0 <= k < i ==> (#[trigger] files@[k])@ == named(found@[k]@),
        decreases found@.len() - i,
    {
        files.push(
            FoundFile {
                position: found[i].position,
                path: archive_name(found[i].path.as_str()),
                bytes: found[i].bytes,
                modified_ns: found[i].modified_ns,
            },
        );
        i = i + 1;
    }
    assert(found_views(files@) == named_files(found_views(found@)));
    files
}

/// Entries sorted by path.
pub(crate) fn sort_entries(entries: Vec<CachedFileEntry>) -> (sorted: Vec<CachedFileEntry>)
    ensures
        entry_views(sorted@) == sorted_entries(entry_views(entries@)),
{
    let mut keys: Vec<SortKey> = Vec::new();
    let mut i: usize = 0;
    proof {
        reveal_strlit("");
        assert(""@ == Seq::<char>::empty());
    }
    while i < entries.len()
        invariant
            ""@ == Seq::<char>::empty(),
            i <= entries@.len(),
            keys@.len() == i,
            forall|k: int|
                0 <= k < i ==> (#[trigger] keys@[k])@ == sort_key(
                    entries@[k].path@,
                    Seq::empty(),
                ),
        decreases entries@.len() - i,
    {
        keys.push(key_of(entries[i].path.as_str(), ""));
        i = i + 1;
    }
    let order = stable_order(&keys);
    proof {
        let views = entry_views(entries@);
        assert(key_views(keys@) == entry_keys(views));
        let found = positions(order@);
        assert forall|k: int| 0 <= k < order@.len() implies 0 <= #[trigger] order@[k]
            < entries@.len() by {
            assert(0 <= found[k] < entries@.len());
        }
        assert forall|k: int, l: int| 0 <= k < l < order@.len() implies order@[k] != order@[l] by {
            crate::order::lemma_order_is_distinct(entry_keys(views), found, k, l);
        }
    }
    let ghost all = entries@;
    let sorted = rearrange(entries, &order);
    assert(entry_views(sorted@) == arranged(entry_views(all), positions(order@)));
    sorted
}

impl SaveScan {
    #[verifier::type_invariant]
    spec fn is_well_formed(self) -> bool {
        &&& self.entries@.len() <= self.files@.len()
        &&& finds_latest(self.latest@, entry_views(self.previous@))
    }

    /// A scan of the files that were found, given what the previous scan found.
    pub fn begin(found: Vec<FoundFile>, previous: Vec<CachedFileEntry>) -> (scan: SaveScan)
        ensures
            scan@ == scan_start(found_views(found@), entry_views(previous@)),
    {
        let latest = index_latest(&previous);
        let entries: Vec<CachedFileEntry> = Vec::new();
        assert(entry_views(entries@) == Seq::<CachedFileEntryView>::empty());
        SaveScan { files: rename_all(found), previous, latest, entries, failure: None }
    }

    /// The number of files.
    pub fn total(&self) -> (total: usize)
        ensures
            total == self@.files.len(),
    {
        self.files.len()
    }

    /// The number of files that have been dealt with.
    pub fn completed(&self) -> (completed: usize)
        ensures
            completed == self@.entries.len(),
    {
        self.entries.len()
    }

    /// Whether the scan was given up.
    pub fn has_failed(&self) -> (failed: bool)
        ensures
            failed == self@.failure is Some,
    {
        self.failure.is_some()
    }

    /// The position of the entry whose digest the file in hand keeps.
    fn known(&self) -> (at: Option<usize>)
        requires
            self@.entries.len() < self@.files.len(),
        ensures
            match known_digest(self@.previous, self@.files[self@.entries.len() as int]) {
                Some(sha256) => at matches Some(i) && i < self@.previous.len()
                    && self@.previous[i as int].sha256 == sha256,
                None => at is None,
            },
    {
        proof {
            use_type_invariant(self);
        }
        let file = &self.files[self.entries.len()];
        match self.latest.get(file.path.as_str()) {
            Some(i) => {
                let old_entry = &self.previous[*i];
                if old_entry.bytes == file.bytes && old_entry.modified_ns == file.modified_ns {
                    Some(*i)
                } else {
                    None
                }
            },
            None => None,
        }
    }

    /// What is to be done next.
    pub fn action(&self) -> (action: ScanAction)
        ensures
            action == scan_action(self@),
    {
        if self.failure.is_some() || self.entries.len() >= self.files.len() {
            ScanAction::Done
        } else if self.known().is_some() {
            ScanAction::Keep
        } else {
            ScanAction::Hash { index: self.files[self.entries.len()].position }
        }
    }

    /// Takes what the pending action came to.
    pub fn handle(self, event: ScanEvent) -> (next: SaveScan)
        ensures
            next@ == scan_next(self@, event@),
    {
        proof {
            use_type_invariant(&self);
        }
        let action = self.action();
        let known = match action {
            ScanAction::Keep => self.known(),
            _ => None,
        };
        let SaveScan { files, previous, latest, entries, failure } = self;
        let mut entries = entries;
        let mut failure = failure;
        let ghost before = entries@;
        let digest: Option<String> = match (action, event) {
            (ScanAction::Keep, ScanEvent::Kept) => match known {
                Some(i) => Some(previous[i].sha256.clone()),
                None => None,
            },
            (ScanAction::Hash { .. }, ScanEvent::Digest(Ok(sha256))) => Some(sha256),
            (ScanAction::Hash { .. }, ScanEvent::Digest(Err(e))) => {
                failure = Some(e);
                None
            },
            _ => None,
        };
        match digest {
            Some(sha256) => {
                let file = &files[entries.len()];
                let entry = CachedFileEntry {
                    path: file.path.clone(),
                    bytes: file.bytes,
                    modified_ns: file.modified_ns,
                    sha256,
                };
                entries.push(entry);
                assert(entry_views(before.push(entry)) == entry_views(before).push(entry@));
            },
            None => {},
        }
        SaveScan { files, previous, latest, entries, failure }
    }

    /// What the scan has come to.
    pub fn outcome(self) -> (res: Result<Vec<CachedFileEntry>, String>)
        ensures
            entries_result(res) == scan_outcome(self@),
    {
        match self.failure {
            Some(e) => Err(e),
            None => Ok(sort_entries(self.entries)),
        }
    }
}

/// The digest of the file at `index`: the known one, or what reading the file gave; `digests` holds
/// what reading gives for each step of the walk.
pub open spec fn digest_at(
    files: Seq<FoundFileView>,
    previous: Seq<CachedFileEntryView>,
    digests: Seq<Result<Seq<char>, Seq<char>>>,
    index: int,
) -> Result<Seq<char>, Seq<char>> {
    match known_digest(previous, files[index]) {
        Some(sha256) => Ok(sha256),
        None => digests[files[index].position],
    }
}

/// The scan after the first `n` files, when reading the files gives `digests`. It is given up at
/// the first file that has to be read and cannot be.
pub open spec fn scanned(
    start: ScanView,
    digests: Seq<Result<Seq<char>, Seq<char>>>,
    n: nat,
) -> ScanView
    decreases n,
{
    if n == 0 {
        start
    } else {
        let s = scanned(start, digests, (n - 1) as nat);
        if s.failure is Some {
            s
        } else {
            match digest_at(s.files, s.previous, digests, n - 1) {
                Ok(sha256) => with_digest(s, sha256),
                Err(e) => ScanView { failure: Some(e), ..s },
            }
        }
    }
}

/// What a whole scan comes to, when reading the files gives `digests`.
pub open spec fn scan_result(
    found: Seq<FoundFileView>,
    previous: Seq<CachedFileEntryView>,
    digests: Seq<Result<Seq<char>, Seq<char>>>,
) -> Result<Seq<CachedFileEntryView>, Seq<char>> {
    scan_outcome(scanned(scan_start(found, previous), digests, found.len()))
}

/// Texts or error texts, as values of the model.
pub open spec fn digest_views(digests: Seq<Result<String, String>>) -> Seq<
    Result<Seq<char>, Seq<char>>,
> {
    digests.map_values(|d: Result<String, String>| crate::text::text_result(d))
}

pub(crate) proof fn lemma_scanned_shape(
    start: ScanView,
    digests: Seq<Result<Seq<char>, Seq<char>>>,
    n: nat,
)
    requires
        start.entries.len() == 0,
        start.failure is None,
        n <= start.files.len(),
    ensures
        scanned(start, digests, n).files == start.files,
        scanned(start, digests, n).previous == start.previous,
        scanned(start, digests, n).failure is None ==> scanned(start, digests, n).entries.len()
            == n,
    decreases n,
{
    if n > 0 {
        lemma_scanned_shape(start, digests, (n - 1) as nat);
    }
}

proof fn lemma_scanned_stuck(
    start: ScanView,
    digests: Seq<Result<Seq<char>, Seq<char>>>,
    n: nat,
    m: nat,
)
    requires
        n <= m,
        scanned(start, digests, n).failure is Some,
    ensures
        scanned(start, digests, m) == scanned(start, digests, n),
    decreases m,
{
    if n < m {
        lemma_scanned_stuck(start, digests, n, (m - 1) as nat);
    }
}

/// What a whole scan comes to, given the walk through the save and, for each step of it, what
/// reading the file there gives.
pub open spec fn walk_scan_result(
    walked: Seq<WalkStepView>,
    previous: Seq<CachedFileEntryView>,
    digests: Seq<Result<Seq<char>, Seq<char>>>,
) -> Result<Seq<CachedFileEntryView>, Seq<char>> {
    match files_in(walked) {
        Err(e) => Err(e),
        Ok(found) => scan_result(found, previous, digests),
    }
}

/// Scans a save, given the walk through it and, for each step of it, what reading the file there
/// would give. Of these only the ones count that have to be read.
pub fn scan_save_files(
    walked: &Vec<WalkStep>,
    previous: &Vec<CachedFileEntry>,
    digests: &Vec<Result<String, String>>,
) -> (res: Result<Vec<CachedFileEntry>, String>)
    requires
        digests@.len() == walked@.len(),
    ensures
        entries_result(res) == walk_scan_result(
            walk_views(walked@),
            entry_views(previous@),
            digest_views(digests@),
        ),
{
    let found = match files_of_a_save(walked) {
        Ok(found) => found,
        Err(e) => {
            return Err(e);
        },
    };
    let ghost listing = found_views(found@);
    let ghost start = scan_start(listing, entry_views(previous@));
    let ghost answers = digest_views(digests@);
    let total = found.len();
    assert forall|k: int| 0 <= k < total implies 0 <= (#[trigger] start.files[k]).position
        < digests@.len() by {
        assert(start.files[k].position == found@[k].position);
    }
    let mut scan = SaveScan::begin(found, copy_entries(previous));
    let mut index: usize = 0;
    while index < total
        invariant
            index <= total,
            total == listing.len() == start.files.len(),
            start == scan_start(listing, entry_views(previous@)),
            answers == digest_views(digests@),
            start.entries.len() == 0,
            start.failure is None,
            forall|k: int|
                0 <= k < total ==> 0 <= (#[trigger] start.files[k]).position < digests@.len(),
            scan@ == scanned(start, answers, index as nat),
            scan@.failure is None,
            files_in(walk_views(walked@)) == Ok::<Seq<FoundFileView>, Seq<char>>(listing),
        decreases total - index,
    {
        proof {
            lemma_scanned_shape(start, answers, index as nat);
            let position = start.files[index as int].position;
            assert(answers[position] == crate::text::text_result(digests@[position]));
        }
        scan = match scan.action() {
            ScanAction::Hash { index: position } => scan.handle(
                ScanEvent::Digest(crate::text::copy_result(&digests[position])),
            ),
            _ => scan.handle(ScanEvent::Kept),
        };
        assert(scan@ == scanned(start, answers, (index + 1) as nat));
        index = index + 1;
        if scan.has_failed() {
            proof {
                lemma_scanned_stuck(start, answers, index as nat, total as nat);
            }
            return scan.outcome();
        }
    }
    scan.outcome()
}

/// A copy of some entries.
pub(crate) fn copy_entries(entries: &Vec<CachedFileEntry>) -> (copy: Vec<CachedFileEntry>)
    ensures
        entry_views(copy@) == entry_views(entries@),
{
    let mut copy: Vec<CachedFileEntry> = Vec::new();
    let mut i: usize = 0;
    while i < entries.len()
        invariant
            i <= entries@.len(),
            copy@.len() == i,
            forall|k: int| 0 <= k < i ==> (#[trigger] copy@[k])@ == entries@[k]@,
        decreases entries@.len() - i,
    {
        copy.push(
            CachedFileEntry {
                path: entries[i].path.clone(),
                bytes: entries[i].bytes,
                modified_ns: entries[i].modified_ns,
                sha256: entries[i].sha256.clone(),
            },
        );
        i = i + 1;
    }
    assert(entry_views(copy@) == entry_views(entries@));
    copy
}

/// Sorting neither adds nor drops an entry.
pub proof fn law_sorting_keeps_the_entries(
    entries: Seq<CachedFileEntryView>,
    entry: CachedFileEntryView,
)
    ensures
        sorted_entries(entries).contains(entry) <==> entries.contains(entry),
        sorted_entries(entries).len() == entries.len(),
{
    let keys = entry_keys(entries);
    let order = stable_order_of(keys);
    let sorted = sorted_entries(entries);
    lemma_stable_order_exists(keys);
    if entries.contains(entry) {
        let i = choose|i: int| 0 <= i < entries.len() && entries[i] == entry;
        lemma_order_is_complete(keys, order, i);
        let k = choose|k: int| 0 <= k < order.len() && order[k] == i;
        assert(sorted[k] == entry);
    }
    if sorted.contains(entry) {
        let k = choose|k: int| 0 <= k < sorted.len() && sorted[k] == entry;
        assert(0 <= order[k] < entries.len());
        assert(entries[order[k]] == entry);
    }
}

proof fn lemma_last_at(previous: Seq<CachedFileEntryView>, path: Seq<char>, k: int)
    requires
        0 <= k < previous.len(),
        previous[k].path == path,
        forall|j: int| k < j < previous.len() ==> (#[trigger] previous[j]).path != path,
    ensures
        last_at(previous, path) == Some(k),
    decreases previous.len(),
{
    if k < previous.len() - 1 {
        assert(previous.last().path != path);
        let shorter = previous.drop_last();
        assert forall|j: int| k < j < shorter.len() implies (#[trigger] shorter[j]).path != path by {
            assert(shorter[j] == previous[j]);
        }
        lemma_last_at(shorter, path, k);
    }
}

proof fn lemma_scanned_entries(
    start: ScanView,
    digests: Seq<Result<Seq<char>, Seq<char>>>,
    n: nat,
    i: int,
)
    requires
        start.entries.len() == 0,
        start.failure is None,
        n <= start.files.len(),
        scanned(start, digests, n).failure is None,
        0 <= i < n,
    ensures
        digest_at(start.files, start.previous, digests, i) is Ok,
        scanned(start, digests, n).entries[i] == entry_for(
            start.files[i],
            digest_at(start.files, start.previous, digests, i)->Ok_0,
        ),
    decreases n,
{
    lemma_scanned_shape(start, digests, n);
    lemma_scanned_shape(start, digests, (n - 1) as nat);
    if i < n - 1 {
        lemma_scanned_entries(start, digests, (n - 1) as nat, i);
    }
}

proof fn lemma_rescanned(
    start: ScanView,
    digests: Seq<Result<Seq<char>, Seq<char>>>,
    entries: Seq<CachedFileEntryView>,
    n: nat,
)
    requires
        start.entries.len() == 0,
        start.failure is None,
        n <= start.files.len() == entries.len(),
        forall|i: int|
            0 <= i < entries.len() ==> {
                &&& #[trigger] entries[i] == entry_for(start.files[i], entries[i].sha256)
                &&& digest_at(start.files, start.previous, digests, i) == Ok::<
                    Seq<char>,
                    Seq<char>,
                >(entries[i].sha256)
            },
    ensures
        scanned(start, digests, n) == (ScanView { entries: entries.take(n as int), ..start }),
    decreases n,
{
    if n > 0 {
        lemma_rescanned(start, digests, entries, (n - 1) as nat);
        let i = n - 1;
        assert(entries[i] == entry_for(start.files[i], entries[i].sha256));
        assert(entries.take(n as int) == entries.take(i).push(entries[i]));
    } else {
        assert(entries.take(0) == start.entries);
    }
}

/// Whether the file at `j` is the last one of its name.
pub open spec fn is_last_of_its_name(files: Seq<FoundFileView>, j: int) -> bool {
    &&& 0 <= j < files.len()
    &&& forall|k: int| j < k < files.len() ==> (#[trigger] files[k]).path != files[j].path
}

/// Whether the files that share a name with a later one can be told from what is remembered of the
/// last of them: one of the same size and time has the same digest, and reading any other gives
/// the digest that was found for it. Without two files of one name this always holds.
pub open spec fn is_unambiguous(
    found: Seq<FoundFileView>,
    previous: Seq<CachedFileEntryView>,
    digests: Seq<Result<Seq<char>, Seq<char>>>,
    digests_again: Seq<Result<Seq<char>, Seq<char>>>,
) -> bool {
    let files = named_files(found);
    forall|i: int, j: int|
        0 <= i < j < files.len() && #[trigger] files[i].path == #[trigger] files[j].path
            && is_last_of_its_name(files, j) ==> {
            let digest = digest_at(files, previous, digests, i);
            if files[i].bytes == files[j].bytes && files[i].modified_ns == files[j].modified_ns {
                digest == digest_at(files, previous, digests, j)
            } else {
                digest == digests_again[files[i].position]
            }
        }
}

proof fn lemma_last_of_a_name(files: Seq<FoundFileView>, i: int, from: int) -> (j: int)
    requires
        0 <= i <= from < files.len(),
        files[from].path == files[i].path,
    ensures
        from <= j < files.len(),
        files[j].path == files[i].path,
        is_last_of_its_name(files, j),
    decreases files.len() - from,
{
    if is_last_of_its_name(files, from) {
        from
    } else {
        let next = choose|k: int|
            from < k < files.len() && (#[trigger] files[k]).path == files[from].path;
        lemma_last_of_a_name(files, i, next)
    }
}

/// An unchanged save is not read again: a scan that is given the entries of the scan before finds
/// the same entries, and reads no file that is the only one of its name. Of files that share a
/// name, which differ in their separators only, the last one is remembered, and the others must
/// be unambiguous.
pub proof fn law_unchanged_save_is_not_read_again(
    found: Seq<FoundFileView>,
    previous: Seq<CachedFileEntryView>,
    digests: Seq<Result<Seq<char>, Seq<char>>>,
    digests_again: Seq<Result<Seq<char>, Seq<char>>>,
)
    requires
        scan_result(found, previous, digests) is Ok,
        is_unambiguous(found, previous, digests, digests_again),
    ensures
        scan_result(found, scan_result(found, previous, digests)->Ok_0, digests_again)
            == scan_result(found, previous, digests),
        forall|j: int|
            is_last_of_its_name(named_files(found), j)
                ==> #[trigger] known_digest(
                scan_result(found, previous, digests)->Ok_0,
                named(found[j]),
            ) is Some,
{
    let first = scan_start(found, previous);
    let n = found.len();
    let files = first.files;
    let entries = scanned(first, digests, n).entries;
    let sorted = sorted_entries(entries);
    let again = scan_start(found, sorted);
    let keys = entry_keys(entries);
    let order = stable_order_of(keys);
    lemma_scanned_shape(first, digests, n);
    lemma_stable_order_exists(keys);
    assert forall|i: int| 0 <= i < n implies #[trigger] entries[i] == entry_for(
        files[i],
        digest_at(files, previous, digests, i)->Ok_0,
    ) && digest_at(files, previous, digests, i) is Ok by {
        lemma_scanned_entries(first, digests, n, i);
    }
    assert forall|j: int| is_last_of_its_name(files, j) implies {
        &&& last_at(sorted, #[trigger] files[j].path) is Some
        &&& sorted[last_at(sorted, files[j].path)->0] == entries[j]
    } by {
        let path = files[j].path;
        lemma_order_is_complete(keys, order, j);
        let k = choose|k: int| 0 <= k < order.len() && order[k] == j;
        assert(sorted[k] == entries[j]);
        assert forall|l: int| k < l < sorted.len() implies (#[trigger] sorted[l]).path != path by {
            let m = order[l];
            assert(0 <= m < keys.len());
            assert(sorted[l] == entries[m]);
            assert(entries[m].path == files[m].path);
            if sorted[l].path == path {
                assert(keys[order[k]] == keys[order[l]]);
                crate::order::lemma_equal_keys_keep_their_order(keys, order, k, l);
                assert(files[m].path != files[j].path);
            }
        }
        lemma_last_at(sorted, path, k);
    }
    assert forall|i: int| 0 <= i < entries.len() implies {
        &&& #[trigger] entries[i] == entry_for(again.files[i], entries[i].sha256)
        &&& digest_at(again.files, again.previous, digests_again, i) == Ok::<Seq<char>, Seq<char>>(
            entries[i].sha256,
        )
    } by {
        let j = lemma_last_of_a_name(files, i, i);
        assert(entries[j] == entry_for(files[j], entries[j].sha256));
        assert(last_at(sorted, files[j].path) is Some);
    }
    lemma_rescanned(again, digests_again, entries, n);
    assert(entries.take(n as int) == entries);
    assert forall|j: int| is_last_of_its_name(files, j) implies #[trigger] known_digest(
        sorted,
        named(found[j]),
    ) is Some by {
        assert(files[j] == named(found[j]));
        assert(last_at(sorted, files[j].path) is Some);
        assert(entries[j] == entry_for(files[j], entries[j].sha256));
    }
}

/// A scan lists exactly the files of the save, each once, by its path with slashes, with the size
/// and the time that it has, sorted by path.
pub proof fn law_scan_lists_the_files_of_the_save(
    walked: Seq<WalkStepView>,
    previous: Seq<CachedFileEntryView>,
    digests: Seq<Result<Seq<char>, Seq<char>>>,
)
    requires
        walk_scan_result(walked, previous, digests) is Ok,
    ensures
        ({
            let listed = walk_scan_result(walked, previous, digests)->Ok_0;
            let found = files_in(walked)->Ok_0;
            let files = named_files(found);
            let order = order_of_files(files);
            &&& files_in(walked) is Ok
            &&& listed.len() == found.len() == order.len()
            &&& forall|k: int|
                0 <= k < listed.len() ==> {
                    &&& 0 <= #[trigger] order[k] < files.len()
                    &&& digest_at(files, previous, digests, order[k]) is Ok
                    &&& listed[k] == entry_for(
                        files[order[k]],
                        digest_at(files, previous, digests, order[k])->Ok_0,
                    )
                }
            &&& forall|i: int| 0 <= i < files.len() ==> #[trigger] order.contains(i)
            &&& forall|k: int, l: int|
                0 <= k < l < order.len() ==> #[trigger] order[k] != #[trigger] order[l]
            &&& forall|k: int, l: int|
                0 <= k < l < listed.len() ==> {
                    let earlier = sort_key((#[trigger] listed[k]).path, Seq::empty());
                    let later = sort_key((#[trigger] listed[l]).path, Seq::empty());
                    key_less(earlier, later) || earlier == later
                }
        }),
{
    let found = files_in(walked)->Ok_0;
    let first = scan_start(found, previous);
    let files = first.files;
    let n = found.len();
    let entries = scanned(first, digests, n).entries;
    lemma_scanned_shape(first, digests, n);
    let listed = walk_scan_result(walked, previous, digests)->Ok_0;
    assert(listed == sorted_entries(entries));
    assert forall|i: int| 0 <= i < n implies {
        &&& digest_at(files, previous, digests, i) is Ok
        &&& #[trigger] entries[i] == entry_for(
            files[i],
            digest_at(files, previous, digests, i)->Ok_0,
        )
    } by {
        lemma_scanned_entries(first, digests, n, i);
    }
    let keys = entry_keys(entries);
    let order = order_of_files(files);
    assert(order == stable_order_of(keys)) by {
        assert forall|i: int| 0 <= i < n implies keys[i] == sort_key(
            files[i].path,
            Seq::empty(),
        ) by {
            assert(entries[i].path == files[i].path);
        }
        assert(keys == files.map_values(|f: FoundFileView| sort_key(f.path, Seq::empty())));
    }
    lemma_stable_order_exists(keys);
    assert forall|k: int| 0 <= k < listed.len() implies {
        &&& 0 <= #[trigger] order[k] < files.len()
        &&& digest_at(files, previous, digests, order[k]) is Ok
        &&& listed[k] == entry_for(
            files[order[k]],
            digest_at(files, previous, digests, order[k])->Ok_0,
        )
    } by {
        assert(listed[k] == entries[order[k]]);
    }
    assert forall|i: int| 0 <= i < files.len() implies #[trigger] order.contains(i) by {
        lemma_order_is_complete(keys, order, i);
    }
    assert forall|k: int, l: int| 0 <= k < l < order.len() implies #[trigger] order[k]
        != #[trigger] order[l] by {
        crate::order::lemma_order_is_distinct(keys, order, k, l);
    }
    assert forall|k: int, l: int| 0 <= k < l < listed.len() implies {
        let earlier = sort_key((#[trigger] listed[k]).path, Seq::empty());
        let later = sort_key((#[trigger] listed[l]).path, Seq::empty());
        key_less(earlier, later) || earlier == later
    } by {
        assert(crate::order::precedes(keys, order[k], order[l]));
        assert(keys[order[k]] == sort_key(listed[k].path, Seq::empty()));
        assert(keys[order[l]] == sort_key(listed[l].path, Seq::empty()));
    }
}

/// A digest is kept exactly where the last entry for the path tells of the same size and the same
/// modification time; it is the digest that stands there.
pub proof fn law_digest_is_kept_for_an_unchanged_file(
    previous: Seq<CachedFileEntryView>,
    file: FoundFileView,
)
    ensures
        match known_digest(previous, file) {
            Some(sha256) => exists|k: int|
                {
                    &&& 0 <= k < previous.len()
                    &&& #[trigger] previous[k] == (CachedFileEntryView {
                        path: file.path,
                        bytes: file.bytes,
                        modified_ns: file.modified_ns,
                        sha256,
                    })
                    &&& forall|l: int|
                        k < l < previous.len() ==> (#[trigger] previous[l]).path != file.path
                },
            None => forall|k: int|
                0 <= k < previous.len() && (#[trigger] previous[k]).path == file.path
                    && previous[k].bytes == file.bytes && previous[k].modified_ns
                    == file.modified_ns ==> exists|l: int|
                    k < l < previous.len() && (#[trigger] previous[l]).path == file.path,
        },
{
    lemma_last_at_is_last(previous, file.path);
    match last_at(previous, file.path) {
        Some(i) => {
            if known_digest(previous, file) is Some {
                assert(previous[i] == CachedFileEntryView {
                    path: file.path,
                    bytes: file.bytes,
                    modified_ns: file.modified_ns,
                    sha256: previous[i].sha256,
                });
            } else {
                assert forall|k: int|
                    0 <= k < previous.len() && (#[trigger] previous[k]).path == file.path
                        && previous[k].bytes == file.bytes && previous[k].modified_ns
                        == file.modified_ns implies exists|l: int|
                    k < l < previous.len() && (#[trigger] previous[l]).path == file.path by {
                    assert(k < i && previous[i].path == file.path);
                }
            }
        },
        None => {},
    }
}

proof fn lemma_last_at_is_last(previous: Seq<CachedFileEntryView>, path: Seq<char>)
    ensures
        match last_at(previous, path) {
            Some(i) => {
                &&& 0 <= i < previous.len()
                &&& previous[i].path == path
                &&& forall|l: int| i < l < previous.len() ==> (#[trigger] previous[l]).path != path
            },
            None => forall|l: int|
                0 <= l < previous.len() ==> (#[trigger] previous[l]).path != path,
        },
    decreases previous.len(),
{
    if previous.len() > 0 && previous.last().path != path {
        let shorter = previous.drop_last();
        lemma_last_at_is_last(shorter, path);
        assert forall|l: int| 0 <= l < previous.len() - 1 implies previous[l] == shorter[l] by {}
        match last_at(previous, path) {
            Some(i) => {
                assert(previous[i] == shorter[i]);
                assert forall|l: int| i < l < previous.len() implies (#[trigger] previous[l]).path
                    != path by {
                    if l < previous.len() - 1 {
                        assert(previous[l] == shorter[l]);
                    }
                }
            },
            None => {
                assert forall|l: int| 0 <= l < previous.len() implies (#[trigger] previous[l]).path
                    != path by {
                    if l < previous.len() - 1 {
                        assert(previous[l] == shorter[l]);
                    }
                }
            },
        }
    }
}

/// Whether `path` is `relative` with slashes for backslashes.
pub open spec fn is_slashed(path: Seq<char>, relative: Seq<char>) -> bool {
    &&& path.len() == relative.len()
    &&& forall|i: int|
        0 <= i < path.len() ==> #[trigger] path[i] == (if relative[i] == '\\' {
            '/'
        } else {
            relative[i]
        })
}

/// Whether `stamp` is the time `since_epoch` as far as a 64-bit number can tell it, and zero where
/// the time is not known.
pub open spec fn is_stamp(stamp: u64, since_epoch: Option<u128>) -> bool {
    match since_epoch {
        None => stamp == 0,
        Some(n) => stamp == n || (stamp == 0xffff_ffff_ffff_ffff && n > 0xffff_ffff_ffff_ffff),
    }
}

/// Whether `entry` tells of the file `file` as it is now, with what reading it gives or with the
/// digest from an entry of `previous` that tells the same of it.
pub open spec fn tells_of(
    entry: CachedFileEntryView,
    file: WalkedEntryView,
    read: Result<Seq<char>, Seq<char>>,
    previous: Seq<CachedFileEntryView>,
) -> bool {
    &&& file.relative is Ok && file.facts is Ok
    &&& is_slashed(entry.path, file.relative->Ok_0)
    &&& entry.bytes == file.facts->Ok_0.bytes
    &&& is_stamp(entry.modified_ns, file.facts->Ok_0.since_epoch)
    &&& read == Ok::<Seq<char>, Seq<char>>(entry.sha256) || previous.contains(entry)
}

/// Whether the entries tell of exactly the files of a save, each once: `from` says for each entry
/// which step of the walk came across its file.
pub open spec fn tell_of_the_save(
    entries: Seq<CachedFileEntryView>,
    from: Seq<int>,
    walked: Seq<WalkStepView>,
    digests: Seq<Result<Seq<char>, Seq<char>>>,
    previous: Seq<CachedFileEntryView>,
) -> bool {
    &&& from.len() == entries.len()
    &&& forall|k: int|
        0 <= k < entries.len() ==> {
            let i = #[trigger] from[k];
            &&& 0 <= i < walked.len()
            &&& walked[i] matches Ok(file)
            &&& file.is_file && lie_outside_metadata(file.names)
            &&& tells_of(entries[k], file, digests[i], previous)
        }
    &&& forall|k: int, l: int| 0 <= k < l < from.len() ==> #[trigger] from[k] != #[trigger] from[l]
    &&& forall|i: int|
        0 <= i < walked.len() && (#[trigger] walked[i]) is Ok && walked[i]->Ok_0.is_file
            && lie_outside_metadata(walked[i]->Ok_0.names) ==> from.contains(i)
    &&& forall|k: int, l: int|
        0 <= k < l < entries.len() ==> {
            let a = encode_utf8((#[trigger] entries[k]).path);
            let b = encode_utf8((#[trigger] entries[l]).path);
            a == b || bytes_less(a, b)
        }
}

/// A scan tells of every file of the save as it is, and of nothing else: each file that the walk
/// came across outside `__MACOSX`, in whatever depth, is listed once, under its path with slashes,
/// with its size, its time and its digest, in the order of the paths.
pub proof fn law_scan_tells_of_the_save(
    walked: Seq<WalkStepView>,
    previous: Seq<CachedFileEntryView>,
    digests: Seq<Result<Seq<char>, Seq<char>>>,
)
    requires
        walk_scan_result(walked, previous, digests) is Ok,
    ensures
        exists|from: Seq<int>| #[trigger]
            tell_of_the_save(
                walk_scan_result(walked, previous, digests)->Ok_0,
                from,
                walked,
                digests,
                previous,
            ),
{
    let listed = walk_scan_result(walked, previous, digests)->Ok_0;
    let found = files_in(walked)->Ok_0;
    let files = named_files(found);
    let order = order_of_files(files);
    law_scan_lists_the_files_of_the_save(walked, previous, digests);
    law_files_are_those_of_the_save(walked);
    lemma_first_files_of_a_save(walked, walked.len());
    let from = Seq::new(listed.len(), |k: int| found[order[k]].position);
    assert forall|k: int| 0 <= k < listed.len() implies {
        let i = #[trigger] from[k];
        &&& 0 <= i < walked.len()
        &&& walked[i] matches Ok(file)
        &&& file.is_file && lie_outside_metadata(file.names)
        &&& tells_of(listed[k], file, digests[i], previous)
    } by {
        let at = order[k];
        let i = from[k];
        let file = walked[i]->Ok_0;
        assert(found[at].position == i);
        assert(finds_file(walked, i) && found[at] == file_at(walked, i));
        law_files_are_told_by_kind_and_names(walked, i);
        lemma_first_files_are_known(walked, walked.len(), at);
        assert(files[at] == named(found[at]));
        law_replacing_changes_one_character_only(file.relative->Ok_0, '\\', '/');
        law_digest_is_kept_for_an_unchanged_file(previous, files[at]);
        let entry = listed[k];
        assert(entry == entry_for(files[at], entry.sha256));
        if known_digest(previous, files[at]) is Some {
            let p = choose|p: int|
                {
                    &&& 0 <= p < previous.len()
                    &&& #[trigger] previous[p] == (CachedFileEntryView {
                        path: files[at].path,
                        bytes: files[at].bytes,
                        modified_ns: files[at].modified_ns,
                        sha256: known_digest(previous, files[at])->0,
                    })
                    &&& forall|l: int|
                        p < l < previous.len() ==> (#[trigger] previous[l]).path != files[at].path
                };
            assert(previous[p] == entry);
            assert(previous.contains(entry));
        } else {
            assert(digest_at(files, previous, digests, at) == digests[i]);
        }
    }
    assert forall|k: int, l: int| 0 <= k < l < from.len() implies #[trigger] from[k]
        != #[trigger] from[l] by {
        assert(order[k] != order[l]);
        if order[k] < order[l] {
            assert(found[order[k]].position < found[order[l]].position);
        } else {
            assert(found[order[l]].position < found[order[k]].position);
        }
    }
    assert forall|i: int|
        0 <= i < walked.len() && (#[trigger] walked[i]) is Ok && walked[i]->Ok_0.is_file
            && lie_outside_metadata(walked[i]->Ok_0.names) implies from.contains(i) by {
        law_files_are_told_by_kind_and_names(walked, i);
        assert(finds_file(walked, i));
        let at = choose|at: int| 0 <= at < found.len() && (#[trigger] found[at]).position == i;
        assert(order.contains(at));
        let k = choose|k: int| 0 <= k < order.len() && order[k] == at;
        assert(from[k] == i);
    }
    assert forall|k: int, l: int| 0 <= k < l < listed.len() implies {
        let a = encode_utf8((#[trigger] listed[k]).path);
        let b = encode_utf8((#[trigger] listed[l]).path);
        a == b || bytes_less(a, b)
    } by {
        law_texts_are_sorted_by_their_bytes(
            listed[k].path,
            Seq::empty(),
            listed[l].path,
            Seq::empty(),
        );
        let earlier = sort_key(listed[k].path, Seq::empty());
        let later = sort_key(listed[l].path, Seq::empty());
        assert(key_less(earlier, later) || earlier == later);
    }
    assert(tell_of_the_save(listed, from, walked, digests, previous));
}

proof fn lemma_first_files_are_known(walked: Seq<WalkStepView>, n: nat, k: int)
    requires
        first_files_of_a_save(walked, n) is Ok,
        0 <= k < first_files_of_a_save(walked, n)->Ok_0.len(),
    ensures
        ({
            let i = first_files_of_a_save(walked, n)->Ok_0[k].position;
            walked[i] is Ok && walked[i]->Ok_0.relative is Ok && walked[i]->Ok_0.facts is Ok
        }),
    decreases n,
{
    if n > 0 {
        let before = first_files_of_a_save(walked, (n - 1) as nat)->Ok_0;
        if k < before.len() {
            lemma_first_files_are_known(walked, (n - 1) as nat, k);
        }
    }
}

proof fn lemma_readable_walk(walked: Seq<WalkStepView>, n: nat)
    requires
        n <= walked.len(),
        forall|i: int|
            0 <= i < walked.len() ==> {
                &&& (#[trigger] walked[i]) is Ok
                &&& walked[i]->Ok_0.is_file && lie_outside_metadata(walked[i]->Ok_0.names)
                    ==> walked[i]->Ok_0.relative is Ok && walked[i]->Ok_0.facts is Ok
            },
    ensures
        first_files_of_a_save(walked, n) is Ok,
    decreases n,
{
    if n > 0 {
        lemma_readable_walk(walked, (n - 1) as nat);
        assert(walked[n - 1] is Ok);
        law_files_are_told_by_kind_and_names(walked, n - 1);
    }
}

proof fn lemma_readable_files(
    start: ScanView,
    digests: Seq<Result<Seq<char>, Seq<char>>>,
    n: nat,
)
    requires
        start.entries.len() == 0,
        start.failure is None,
        n <= start.files.len(),
        forall|k: int|
            0 <= k < start.files.len() ==> digests[(#[trigger] start.files[k]).position] is Ok,
    ensures
        scanned(start, digests, n).failure is None,
    decreases n,
{
    if n > 0 {
        lemma_readable_files(start, digests, (n - 1) as nat);
        lemma_scanned_shape(start, digests, (n - 1) as nat);
        assert(digests[start.files[n - 1].position] is Ok);
    }
}

/// A save that can be read is scanned: where no step of the walk failed and every file outside
/// `__MACOSX` has a path, tells its facts and can be read, the scan succeeds, however many files
/// there are and whatever is remembered.
pub proof fn law_readable_save_is_scanned(
    walked: Seq<WalkStepView>,
    previous: Seq<CachedFileEntryView>,
    digests: Seq<Result<Seq<char>, Seq<char>>>,
)
    requires
        forall|i: int|
            0 <= i < walked.len() ==> {
                &&& (#[trigger] walked[i]) is Ok
                &&& walked[i]->Ok_0.is_file && lie_outside_metadata(walked[i]->Ok_0.names)
                    ==> walked[i]->Ok_0.relative is Ok && walked[i]->Ok_0.facts is Ok
                    && digests[i] is Ok
            },
    ensures
        walk_scan_result(walked, previous, digests) is Ok,
{
    assert forall|i: int| 0 <= i < walked.len() implies {
        &&& (#[trigger] walked[i]) is Ok
        &&& walked[i]->Ok_0.is_file && lie_outside_metadata(walked[i]->Ok_0.names)
            ==> walked[i]->Ok_0.relative is Ok && walked[i]->Ok_0.facts is Ok
    } by {}
    lemma_readable_walk(walked, walked.len());
    lemma_first_files_of_a_save(walked, walked.len());
    let found = files_in(walked)->Ok_0;
    let start = scan_start(found, previous);
    assert forall|k: int| 0 <= k < start.files.len() implies digests[(
    #[trigger] start.files[k]).position] is Ok by {
        let i = found[k].position;
        assert(start.files[k].position == i);
        assert(finds_file(walked, i));
        law_files_are_told_by_kind_and_names(walked, i);
        assert(walked[i] is Ok);
    }
    lemma_readable_files(start, digests, found.len());
}

/// A save that cannot be read in full is not taken for a smaller one: a step of the walk that
/// failed, or a file whose path or facts are not known, makes the scan fail.
pub proof fn law_unreadable_save_is_not_scanned(
    walked: Seq<WalkStepView>,
    previous: Seq<CachedFileEntryView>,
    digests: Seq<Result<Seq<char>, Seq<char>>>,
    i: int,
)
    requires
        0 <= i < walked.len(),
        walked[i] is Err || (walked[i]->Ok_0.is_file && lie_outside_metadata(
            walked[i]->Ok_0.names,
        ) && (walked[i]->Ok_0.relative is Err || walked[i]->Ok_0.facts is Err)),
    ensures
        walk_scan_result(walked, previous, digests) is Err,
{
    if walked[i] is Ok {
        law_files_are_told_by_kind_and_names(walked, i);
    }
    assert(first_files_of_a_save(walked, (i + 1) as nat) is Err);
    lemma_walk_error_stays(walked, (i + 1) as nat, walked.len());
}

proof fn lemma_first_steps_are_fine(walked: Seq<WalkStepView>, i: int, n: nat)
    requires
        0 <= n <= i < walked.len(),
        forall|k: int|
            0 <= k < i ==> {
                &&& (#[trigger] walked[k]) is Ok
                &&& walked[k]->Ok_0.is_file && lie_outside_metadata(walked[k]->Ok_0.names)
                    ==> walked[k]->Ok_0.relative is Ok && walked[k]->Ok_0.facts is Ok
            },
    ensures
        first_files_of_a_save(walked, n) is Ok,
    decreases n,
{
    if n > 0 {
        lemma_first_steps_are_fine(walked, i, (n - 1) as nat);
        assert(walked[n - 1] is Ok);
        law_files_are_told_by_kind_and_names(walked, n - 1);
    }
}

/// Of what goes wrong on a walk the first thing is told: why the walk came no further, why the path
/// of a file is not known, or why its facts are not.
pub proof fn law_first_problem_of_a_walk_is_told(
    walked: Seq<WalkStepView>,
    previous: Seq<CachedFileEntryView>,
    digests: Seq<Result<Seq<char>, Seq<char>>>,
    i: int,
)
    requires
        0 <= i < walked.len(),
        forall|k: int|
            0 <= k < i ==> {
                &&& (#[trigger] walked[k]) is Ok
                &&& walked[k]->Ok_0.is_file && lie_outside_metadata(walked[k]->Ok_0.names)
                    ==> walked[k]->Ok_0.relative is Ok && walked[k]->Ok_0.facts is Ok
            },
    ensures
        match walked[i] {
            Err(e) => walk_scan_result(walked, previous, digests) == Err::<
                Seq<CachedFileEntryView>,
                Seq<char>,
            >("扫描存档失败"@ + ": "@ + e),
            Ok(entry) => entry.is_file && lie_outside_metadata(entry.names) ==> {
                &&& entry.relative matches Err(e) ==> walk_scan_result(walked, previous, digests)
                    == Err::<Seq<CachedFileEntryView>, Seq<char>>("生成存档路径失败"@ + ": "@ + e)
                &&& entry.relative is Ok && entry.facts is Err ==> walk_scan_result(
                    walked,
                    previous,
                    digests,
                ) == Err::<Seq<CachedFileEntryView>, Seq<char>>(
                    "读取存档元数据失败"@ + ": "@ + entry.facts->Err_0,
                )
            },
        },
{
    lemma_first_steps_are_fine(walked, i, i as nat);
    if walked[i] is Ok {
        law_files_are_told_by_kind_and_names(walked, i);
    }
    if first_files_of_a_save(walked, (i + 1) as nat) is Err {
        lemma_walk_error_stays(walked, (i + 1) as nat, walked.len());
    }
}

proof fn lemma_unread_file_fails(
    start: ScanView,
    digests: Seq<Result<Seq<char>, Seq<char>>>,
    k: int,
    n: nat,
)
    requires
        start.entries.len() == 0,
        start.failure is None,
        0 <= k < n <= start.files.len(),
        known_digest(start.previous, start.files[k]) is None,
        digests[start.files[k].position] is Err,
    ensures
        scanned(start, digests, n).failure is Some,
    decreases n,
{
    lemma_scanned_shape(start, digests, (n - 1) as nat);
    if k < n - 1 {
        lemma_unread_file_fails(start, digests, k, (n - 1) as nat);
    }
}

/// A file of which nothing is remembered is read, and when it cannot be read the scan fails: no
/// file of the save is listed without its digest.
pub proof fn law_unread_file_makes_the_scan_fail(
    walked: Seq<WalkStepView>,
    digests: Seq<Result<Seq<char>, Seq<char>>>,
    i: int,
)
    requires
        0 <= i < walked.len(),
        walked[i] is Ok,
        walked[i]->Ok_0.is_file,
        lie_outside_metadata(walked[i]->Ok_0.names),
        digests[i] is Err,
    ensures
        walk_scan_result(walked, Seq::empty(), digests) is Err,
{
    law_files_are_told_by_kind_and_names(walked, i);
    if files_in(walked) is Ok {
        law_files_are_those_of_the_save(walked);
        let found = files_in(walked)->Ok_0;
        let start = scan_start(found, Seq::empty());
        assert(finds_file(walked, i));
        let k = choose|k: int| 0 <= k < found.len() && (#[trigger] found[k]).position == i;
        assert(start.files[k].position == i);
        lemma_unread_file_fails(start, digests, k, found.len());
    }
}

}

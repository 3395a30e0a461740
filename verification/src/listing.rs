//! Listing the local saves: the directories of saves inside the directories of modes.

use crate::messages::{failed, failed_text};
use crate::names::{is_ignored_metadata_directory, is_metadata_name};
use crate::order::{
    arranged, bytes_less, key_less, key_of, key_views, law_sorting_rearranges,
    law_texts_are_sorted_by_their_bytes, lemma_order_is_complete, lemma_order_is_distinct,
    lemma_stable_order_exists, positions, rearrange, sort_key, stable_order, stable_order_of,
    SortKey, SortKeyView,
};
use crate::text::{ascii_lower, joined};
use vstd::prelude::*;
use vstd::utf8::encode_utf8;

verus! {

/// A local save.
#[derive(Debug, PartialEq, Eq)]
pub struct SaveEntry {
    pub mode: String,
    pub name: String,
    pub path: String,
}

pub struct SaveEntryView {
    pub mode: Seq<char>,
    pub name: Seq<char>,
    pub path: Seq<char>,
}

impl View for SaveEntry {
    type V = SaveEntryView;

    open spec fn view(&self) -> SaveEntryView {
        SaveEntryView { mode: self.mode@, name: self.name@, path: self.path@ }
    }
}

/// Saves as values of the model.
pub open spec fn save_views(entries: Seq<SaveEntry>) -> Seq<SaveEntryView> {
    entries.map_values(|e: SaveEntry| e@)
}

/// Something in the directory of a mode.
pub struct FoundSave {
    pub name: String,
    pub path: String,
    pub is_directory: bool,
}

pub struct FoundSaveView {
    pub name: Seq<char>,
    pub path: Seq<char>,
    pub is_directory: bool,
}

impl View for FoundSave {
    type V = FoundSaveView;

    open spec fn view(&self) -> FoundSaveView {
        FoundSaveView { name: self.name@, path: self.path@, is_directory: self.is_directory }
    }
}

/// The entries of a directory, each as far as it could be read.
pub open spec fn found_save_views(saves: Seq<Result<FoundSave, String>>) -> Seq<
    Result<FoundSaveView, Seq<char>>,
> {
    saves.map_values(
        |s: Result<FoundSave, String>|
            match s {
                Ok(save) => Ok::<FoundSaveView, Seq<char>>(save@),
                Err(e) => Err(e@),
            },
    )
}

/// Something in the directory of the saves, with its entries, as far as they could be listed.
pub struct FoundMode {
    pub name: String,
    pub is_directory: bool,
    pub saves: Result<Vec<Result<FoundSave, String>>, String>,
}

pub struct FoundModeView {
    pub name: Seq<char>,
    pub is_directory: bool,
    pub saves: Result<Seq<Result<FoundSaveView, Seq<char>>>, Seq<char>>,
}

impl View for FoundMode {
    type V = FoundModeView;

    open spec fn view(&self) -> FoundModeView {
        FoundModeView {
            name: self.name@,
            is_directory: self.is_directory,
            saves: match self.saves {
                Ok(saves) => Ok(found_save_views(saves@)),
                Err(e) => Err(e@),
            },
        }
    }
}

/// The entries of a directory, each as far as it could be read.
pub open spec fn found_mode_views(modes: Seq<Result<FoundMode, String>>) -> Seq<
    Result<FoundModeView, Seq<char>>,
> {
    modes.map_values(
        |m: Result<FoundMode, String>|
            match m {
                Ok(mode) => Ok::<FoundModeView, Seq<char>>(mode@),
                Err(e) => Err(e@),
            },
    )
}

/// The entries of the directory of the saves, or why they could not be listed.
pub open spec fn modes_result(modes: Result<Vec<Result<FoundMode, String>>, String>) -> Result<
    Seq<Result<FoundModeView, Seq<char>>>,
    Seq<char>,
> {
    match modes {
        Ok(found) => Ok(found_mode_views(found@)),
        Err(e) => Err(e@),
    }
}

/// Saves or an error, as values of the model.
pub open spec fn saves_result(r: Result<Vec<SaveEntry>, String>) -> Result<
    Seq<SaveEntryView>,
    Seq<char>,
> {
    match r {
        Ok(entries) => Ok(save_views(entries@)),
        Err(e) => Err(e@),
    }
}

/// Whether something found holds saves, or is one.
pub open spec fn counts_as_directory(name: Seq<char>, is_directory: bool) -> bool {
    is_directory && !is_metadata_name(name)
}

/// The saves among the first `n` entries of the directory of `mode`, or the first error.
pub open spec fn saves_of_mode(
    mode: Seq<char>,
    saves: Seq<Result<FoundSaveView, Seq<char>>>,
    n: nat,
) -> Result<Seq<SaveEntryView>, Seq<char>>
    decreases n,
{
    if n == 0 {
        Ok(Seq::empty())
    } else {
        match saves_of_mode(mode, saves, (n - 1) as nat) {
            Err(e) => Err(e),
            Ok(entries) => match saves[n - 1] {
                Err(e) => Err(failed_text("读取存档记录失败"@, e)),
                Ok(save) => if counts_as_directory(save.name, save.is_directory) {
                    Ok(entries.push(SaveEntryView { mode, name: save.name, path: save.path }))
                } else {
                    Ok(entries)
                },
            },
        }
    }
}

/// The message for the directory of a mode that could not be listed.
pub open spec fn mode_failed(mode: Seq<char>, error: Seq<char>) -> Seq<char> {
    failed_text("读取 "@ + mode + " 失败"@, error)
}

/// The saves in the first `n` entries of the directory of the saves, or the first error.
pub open spec fn saves_of_modes(modes: Seq<Result<FoundModeView, Seq<char>>>, n: nat) -> Result<
    Seq<SaveEntryView>,
    Seq<char>,
>
    decreases n,
{
    if n == 0 {
        Ok(Seq::empty())
    } else {
        match saves_of_modes(modes, (n - 1) as nat) {
            Err(e) => Err(e),
            Ok(entries) => match modes[n - 1] {
                Err(e) => Err(failed_text("读取存档模式失败"@, e)),
                Ok(mode) => if !counts_as_directory(mode.name, mode.is_directory) {
                    Ok(entries)
                } else {
                    match mode.saves {
                        Err(e) => Err(mode_failed(mode.name, e)),
                        Ok(saves) => match saves_of_mode(mode.name, saves, saves.len()) {
                            Err(e) => Err(e),
                            Ok(more) => Ok(entries + more),
                        },
                    }
                },
            },
        }
    }
}

/// The keys by which saves are sorted: mode, then name.
pub open spec fn save_keys(entries: Seq<SaveEntryView>) -> Seq<SortKeyView> {
    entries.map_values(|e: SaveEntryView| sort_key(e.mode, e.name))
}

/// Saves sorted by mode and name.
pub open spec fn sorted_saves(entries: Seq<SaveEntryView>) -> Seq<SaveEntryView> {
    arranged(entries, stable_order_of(save_keys(entries)))
}

/// The local saves, or why they could not be listed.
pub open spec fn local_saves(
    root_is_directory: bool,
    modes: Result<Seq<Result<FoundModeView, Seq<char>>>, Seq<char>>,
) -> Result<Seq<SaveEntryView>, Seq<char>> {
    if !root_is_directory {
        Err("Saves 目录不存在"@)
    } else {
        match modes {
            Err(e) => Err(failed_text("读取 Saves 目录失败"@, e)),
            Ok(found) => match saves_of_modes(found, found.len()) {
                Err(e) => Err(e),
                Ok(entries) => Ok(sorted_saves(entries)),
            },
        }
    }
}

proof fn lemma_mode_error_stays(
    mode: Seq<char>,
    saves: Seq<Result<FoundSaveView, Seq<char>>>,
    m: nat,
    n: nat,
)
    requires
        m <= n,
        saves_of_mode(mode, saves, m) is Err,
    ensures
        saves_of_mode(mode, saves, n) == saves_of_mode(mode, saves, m),
    decreases n - m,
{
    if m < n {
        lemma_mode_error_stays(mode, saves, m, (n - 1) as nat);
    }
}

proof fn lemma_modes_error_stays(modes: Seq<Result<FoundModeView, Seq<char>>>, m: nat, n: nat)
    requires
        m <= n,
        saves_of_modes(modes, m) is Err,
    ensures
        saves_of_modes(modes, n) == saves_of_modes(modes, m),
    decreases n - m,
{
    if m < n {
        lemma_modes_error_stays(modes, m, (n - 1) as nat);
    }
}

/// The saves in the directory of `mode`.
fn collect_mode(mode: &String, saves: &Vec<Result<FoundSave, String>>) -> (res: Result<
    Vec<SaveEntry>,
    String,
>)
    ensures
        saves_result(res) == saves_of_mode(mode@, found_save_views(saves@), saves@.len()),
{
    let ghost views = found_save_views(saves@);
    let mut entries: Vec<SaveEntry> = Vec::new();
    assert(save_views(entries@) == Seq::<SaveEntryView>::empty());
    let mut i: usize = 0;
    while i < saves.len()
        invariant
            i <= saves@.len() == views.len(),
            views == found_save_views(saves@),
            saves_of_mode(mode@, views, i as nat) == Ok::<Seq<SaveEntryView>, Seq<char>>(
                save_views(entries@),
            ),
        decreases saves@.len() - i,
    {
        let ghost before = entries@;
        match &saves[i] {
            Err(e) => {
                proof {
                    lemma_mode_error_stays(mode@, views, (i + 1) as nat, views.len());
                }
                return Err(failed("读取存档记录失败", e.as_str()));
            },
            Ok(save) => {
                if save.is_directory && !is_ignored_metadata_directory(save.name.as_str()) {
                    let entry = SaveEntry {
                        mode: mode.clone(),
                        name: save.name.clone(),
                        path: save.path.clone(),
                    };
                    entries.push(entry);
                    assert(save_views(before.push(entry)) == save_views(before).push(entry@));
                }
            },
        }
        i = i + 1;
    }
    Ok(entries)
}

fn mode_error_text(mode: &String, error: &String) -> (message: String)
    ensures
        message@ == mode_failed(mode@, error@),
{
    let mut what = joined("读取 ", mode.as_str());
    what.append(" 失败");
    failed(what.as_str(), error.as_str())
}

/// The saves in the directory of the saves.
fn collect_modes(modes: &Vec<Result<FoundMode, String>>) -> (res: Result<Vec<SaveEntry>, String>)
    ensures
        saves_result(res) == saves_of_modes(found_mode_views(modes@), modes@.len()),
{
    let ghost views = found_mode_views(modes@);
    let mut entries: Vec<SaveEntry> = Vec::new();
    assert(save_views(entries@) == Seq::<SaveEntryView>::empty());
    let mut i: usize = 0;
    while i < modes.len()
        invariant
            i <= modes@.len() == views.len(),
            views == found_mode_views(modes@),
            saves_of_modes(views, i as nat) == Ok::<Seq<SaveEntryView>, Seq<char>>(
                save_views(entries@),
            ),
        decreases modes@.len() - i,
    {
        let ghost before = entries@;
        let ghost after = saves_of_modes(views, (i + 1) as nat);
        proof {
            if after is Err {
                lemma_modes_error_stays(views, (i + 1) as nat, views.len());
            }
        }
        match &modes[i] {
            Err(e) => {
                return Err(failed("读取存档模式失败", e.as_str()));
            },
            Ok(mode) => {
                if mode.is_directory && !is_ignored_metadata_directory(mode.name.as_str()) {
                    match &mode.saves {
                        Err(e) => {
                            return Err(mode_error_text(&mode.name, e));
                        },
                        Ok(saves) => match collect_mode(&mode.name, saves) {
                            Err(e) => {
                                return Err(e);
                            },
                            Ok(found) => {
                                let mut more = found;
                                let ghost second = more@;
                                entries.append(&mut more);
                                assert(save_views(entries@) == save_views(before) + save_views(
                                    second,
                                ));
                            },
                        },
                    }
                }
            },
        }
        i = i + 1;
    }
    Ok(entries)
}

fn sort_saves(entries: Vec<SaveEntry>) -> (sorted: Vec<SaveEntry>)
    ensures
        save_views(sorted@) == sorted_saves(save_views(entries@)),
{
    let mut keys: Vec<SortKey> = Vec::new();
    let mut i: usize = 0;
    while i < entries.len()
        invariant
            i <= entries@.len(),
            keys@.len() == i,
            forall|k: int|
                0 <= k < i ==> (#[trigger] keys@[k])@ == sort_key(
                    entries@[k].mode@,
                    entries@[k].name@,
                ),
        decreases entries@.len() - i,
    {
        keys.push(key_of(entries[i].mode.as_str(), entries[i].name.as_str()));
        i = i + 1;
    }
    let order = stable_order(&keys);
    proof {
        let views = save_views(entries@);
        assert(key_views(keys@) == save_keys(views));
        let found = positions(order@);
        assert forall|k: int| 0 <= k < order@.len() implies 0 <= #[trigger] order@[k]
            < entries@.len() by {
            assert(0 <= found[k] < entries@.len());
        }
        assert forall|k: int, l: int| 0 <= k < l < order@.len() implies order@[k] != order@[l] by {
            lemma_order_is_distinct(save_keys(views), found, k, l);
        }
    }
    let ghost all = entries@;
    let sorted = rearrange(entries, &order);
    assert(save_views(sorted@) == arranged(save_views(all), positions(order@)));
    sorted
}

/// The local saves, given whether the directory of the saves is one and what was found in it.
pub fn list_saves(
    root_is_directory: bool,
    modes: Result<Vec<Result<FoundMode, String>>, String>,
) -> (res: Result<Vec<SaveEntry>, String>)
    ensures
        saves_result(res) == local_saves(root_is_directory, modes_result(modes)),
{
    if !root_is_directory {
        return Err("Saves 目录不存在".to_owned());
    }
    match modes {
        Err(e) => Err(failed("读取 Saves 目录失败", e.as_str())),
        Ok(found) => match collect_modes(&found) {
            Err(e) => Err(e),
            Ok(entries) => Ok(sort_saves(entries)),
        },
    }
}

/// Where a save comes from: the entry at `j` of the mode at `i`.
pub open spec fn is_save_at(
    modes: Seq<Result<FoundModeView, Seq<char>>>,
    i: int,
    j: int,
    entry: SaveEntryView,
) -> bool {
    &&& 0 <= i < modes.len()
    &&& modes[i] matches Ok(mode) && counts_as_directory(mode.name, mode.is_directory) && (
    mode.saves matches Ok(saves) && 0 <= j < saves.len() && (saves[j] matches Ok(save)
        && counts_as_directory(save.name, save.is_directory) && entry == (SaveEntryView {
        mode: mode.name,
        name: save.name,
        path: save.path,
    })))
}

proof fn lemma_saves_of_mode(
    mode: Seq<char>,
    saves: Seq<Result<FoundSaveView, Seq<char>>>,
    n: nat,
    entry: SaveEntryView,
) -> (j: int)
    requires
        n <= saves.len(),
        saves_of_mode(mode, saves, n) is Ok,
    ensures
        saves_of_mode(mode, saves, n)->Ok_0.contains(entry) ==> 0 <= j < n && (saves[j] matches Ok(
            save,
        ) && counts_as_directory(save.name, save.is_directory) && entry == (SaveEntryView {
            mode,
            name: save.name,
            path: save.path,
        })),
    decreases n,
{
    if n == 0 {
        -1
    } else {
        let k = lemma_saves_of_mode(mode, saves, (n - 1) as nat, entry);
        let before = saves_of_mode(mode, saves, (n - 1) as nat)->Ok_0;
        let after = saves_of_mode(mode, saves, n)->Ok_0;
        if after.contains(entry) && !before.contains(entry) {
            let at = choose|at: int| 0 <= at < after.len() && after[at] == entry;
            if at < before.len() {
                assert(before[at] == entry);
            }
            n - 1
        } else {
            k
        }
    }
}

proof fn lemma_mode_save_is_found(
    mode: Seq<char>,
    saves: Seq<Result<FoundSaveView, Seq<char>>>,
    n: nat,
    j: int,
)
    requires
        0 <= j < n <= saves.len(),
        saves_of_mode(mode, saves, n) is Ok,
        saves[j] is Ok,
        counts_as_directory(saves[j]->Ok_0.name, saves[j]->Ok_0.is_directory),
    ensures
        saves_of_mode(mode, saves, n)->Ok_0.contains(
            SaveEntryView { mode, name: saves[j]->Ok_0.name, path: saves[j]->Ok_0.path },
        ),
    decreases n,
{
    let entry = SaveEntryView { mode, name: saves[j]->Ok_0.name, path: saves[j]->Ok_0.path };
    let before = saves_of_mode(mode, saves, (n - 1) as nat)->Ok_0;
    let after = saves_of_mode(mode, saves, n)->Ok_0;
    if j == n - 1 {
        assert(after[before.len() as int] == entry);
    } else {
        lemma_mode_save_is_found(mode, saves, (n - 1) as nat, j);
        let at = choose|at: int| 0 <= at < before.len() && before[at] == entry;
        assert(after[at] == entry);
    }
}

proof fn lemma_saves_of_modes(
    modes: Seq<Result<FoundModeView, Seq<char>>>,
    n: nat,
    entry: SaveEntryView,
)
    requires
        n <= modes.len(),
        saves_of_modes(modes, n) is Ok,
    ensures
        saves_of_modes(modes, n)->Ok_0.contains(entry) <==> exists|i: int, j: int|
            i < n && #[trigger] is_save_at(modes, i, j, entry),
    decreases n,
{
    if n > 0 {
        lemma_saves_of_modes(modes, (n - 1) as nat, entry);
        let before = saves_of_modes(modes, (n - 1) as nat)->Ok_0;
        let after = saves_of_modes(modes, n)->Ok_0;
        let mode = modes[n - 1]->Ok_0;
        let counted = counts_as_directory(mode.name, mode.is_directory);
        let saves = mode.saves->Ok_0;
        let more = saves_of_mode(mode.name, saves, saves.len())->Ok_0;
        if counted {
            assert(after == before + more);
            let j = lemma_saves_of_mode(mode.name, saves, saves.len(), entry);
            if more.contains(entry) {
                assert(is_save_at(modes, n - 1, j, entry));
                let at = choose|at: int| 0 <= at < more.len() && more[at] == entry;
                assert(after[before.len() + at] == entry);
            }
            if before.contains(entry) {
                let at = choose|at: int| 0 <= at < before.len() && before[at] == entry;
                assert(after[at] == entry);
            }
            if after.contains(entry) {
                let at = choose|at: int| 0 <= at < after.len() && after[at] == entry;
                if at < before.len() {
                    assert(before[at] == entry);
                } else {
                    assert(more[at - before.len()] == entry);
                }
            }
            if exists|i: int, j: int| i < n && #[trigger] is_save_at(modes, i, j, entry) {
                let (i, j) = choose|i: int, j: int|
                    i < n && #[trigger] is_save_at(modes, i, j, entry);
                if i == n - 1 {
                    lemma_mode_save_is_found(mode.name, saves, saves.len(), j);
                } else {
                    assert(before.contains(entry));
                }
            }
        } else {
            if exists|i: int, j: int| i < n && #[trigger] is_save_at(modes, i, j, entry) {
                let (i, j) = choose|i: int, j: int|
                    i < n && #[trigger] is_save_at(modes, i, j, entry);
                assert(i < n - 1);
            }
        }
    }
}

/// What is listed are exactly the directories inside directories of modes, leaving out the
/// directories of archive metadata: nothing else appears, and none is missing.
pub proof fn law_listing_is_exact(
    modes: Seq<Result<FoundModeView, Seq<char>>>,
    entry: SaveEntryView,
)
    requires
        local_saves(true, Ok(modes)) is Ok,
    ensures
        local_saves(true, Ok(modes))->Ok_0.contains(entry) <==> exists|i: int, j: int|
            is_save_at(modes, i, j, entry),
        local_saves(true, Ok(modes))->Ok_0.contains(entry) ==> !is_metadata_name(entry.mode)
            && !is_metadata_name(entry.name),
{
    let entries = saves_of_modes(modes, modes.len())->Ok_0;
    let sorted = sorted_saves(entries);
    lemma_saves_of_modes(modes, modes.len(), entry);
    let keys = save_keys(entries);
    let order = stable_order_of(keys);
    lemma_stable_order_exists(keys);
    if entries.contains(entry) {
        let i = choose|i: int| 0 <= i < entries.len() && entries[i] == entry;
        lemma_order_is_complete(keys, order, i);
        let k = choose|k: int| 0 <= k < order.len() && order[k] == i;
        assert(sorted[k] == entry);
    }
    if sorted.contains(entry) {
        let k = choose|k: int| 0 <= k < sorted.len() && sorted[k] == entry;
        assert(0 <= order[k] < entries.len());
        assert(entries[order[k]] == entry);
    }
}

/// Saves are listed by mode, and within a mode by name.
pub proof fn law_listing_is_sorted(
    modes: Seq<Result<FoundModeView, Seq<char>>>,
    k: int,
    l: int,
)
    requires
        local_saves(true, Ok(modes)) is Ok,
        0 <= k < l < local_saves(true, Ok(modes))->Ok_0.len(),
    ensures
        ({
            let listed = local_saves(true, Ok(modes))->Ok_0;
            let earlier = sort_key(listed[k].mode, listed[k].name);
            let later = sort_key(listed[l].mode, listed[l].name);
            key_less(earlier, later) || earlier == later
        }),
{
    let entries = saves_of_modes(modes, modes.len())->Ok_0;
    let keys = save_keys(entries);
    let order = stable_order_of(keys);
    lemma_stable_order_exists(keys);
    assert(0 <= order[k] < keys.len() && 0 <= order[l] < keys.len());
    assert(crate::order::precedes(keys, order[k], order[l]));
}

/// Whether something with this name is a directory that is looked into: any but `__MACOSX`, in any
/// ASCII case.
pub open spec fn is_looked_into(name: Seq<char>, is_directory: bool) -> bool {
    is_directory && ascii_lower(name) != "__macosx"@
}

proof fn lemma_looked_into(name: Seq<char>, is_directory: bool)
    ensures
        is_looked_into(name, is_directory) == counts_as_directory(name, is_directory),
{
}

proof fn lemma_origins_in_mode(
    mode: Seq<char>,
    saves: Seq<Result<FoundSaveView, Seq<char>>>,
    n: nat,
) -> (from: Seq<int>)
    requires
        n <= saves.len(),
        saves_of_mode(mode, saves, n) is Ok,
    ensures
        from.len() == saves_of_mode(mode, saves, n)->Ok_0.len(),
        forall|k: int|
            0 <= k < from.len() ==> {
                let j = #[trigger] from[k];
                &&& 0 <= j < n
                &&& saves[j] matches Ok(save)
                &&& is_looked_into(save.name, save.is_directory)
                &&& saves_of_mode(mode, saves, n)->Ok_0[k] == (SaveEntryView {
                    mode,
                    name: save.name,
                    path: save.path,
                })
            },
        forall|k: int, l: int| 0 <= k < l < from.len() ==> #[trigger] from[k] < #[trigger] from[l],
        forall|j: int|
            0 <= j < n && (#[trigger] saves[j]) is Ok && is_looked_into(
                saves[j]->Ok_0.name,
                saves[j]->Ok_0.is_directory,
            ) ==> from.contains(j),
        forall|j: int| 0 <= j < n ==> (#[trigger] saves[j]) is Ok,
    decreases n,
{
    if n == 0 {
        Seq::empty()
    } else {
        let before = lemma_origins_in_mode(mode, saves, (n - 1) as nat);
        let save = saves[n - 1]->Ok_0;
        lemma_looked_into(save.name, save.is_directory);
        if is_looked_into(save.name, save.is_directory) {
            let from = before.push(n - 1);
            assert forall|j: int|
                0 <= j < n && (#[trigger] saves[j]) is Ok && is_looked_into(
                    saves[j]->Ok_0.name,
                    saves[j]->Ok_0.is_directory,
                ) implies from.contains(j) by {
                if j < n - 1 {
                    let k = choose|k: int| 0 <= k < before.len() && before[k] == j;
                    assert(from[k] == j);
                } else {
                    assert(from[before.len() as int] == j);
                }
            }
            from
        } else {
            before
        }
    }
}

/// Whether `at` is where a save lies: in the directory of a mode, itself a directory.
pub open spec fn leads_to_a_save(
    modes: Seq<Result<FoundModeView, Seq<char>>>,
    at: (int, int),
) -> bool {
    &&& 0 <= at.0 < modes.len()
    &&& modes[at.0] matches Ok(mode)
    &&& is_looked_into(mode.name, mode.is_directory)
    &&& mode.saves matches Ok(saves)
    &&& 0 <= at.1 < saves.len()
    &&& saves[at.1] matches Ok(save)
    &&& is_looked_into(save.name, save.is_directory)
}

/// The save that lies there.
pub open spec fn save_there(
    modes: Seq<Result<FoundModeView, Seq<char>>>,
    at: (int, int),
) -> SaveEntryView {
    let mode = modes[at.0]->Ok_0;
    let save = mode.saves->Ok_0[at.1]->Ok_0;
    SaveEntryView { mode: mode.name, name: save.name, path: save.path }
}

/// Whether one place comes before another in the order in which the directories were read.
spec fn is_before(a: (int, int), b: (int, int)) -> bool {
    a.0 < b.0 || (a.0 == b.0 && a.1 < b.1)
}

proof fn lemma_origins(modes: Seq<Result<FoundModeView, Seq<char>>>, n: nat) -> (from: Seq<
    (int, int),
>)
    requires
        n <= modes.len(),
        saves_of_modes(modes, n) is Ok,
    ensures
        from.len() == saves_of_modes(modes, n)->Ok_0.len(),
        forall|k: int|
            0 <= k < from.len() ==> {
                &&& (#[trigger] from[k]).0 < n
                &&& leads_to_a_save(modes, from[k])
                &&& saves_of_modes(modes, n)->Ok_0[k] == save_there(modes, from[k])
            },
        forall|k: int, l: int|
            0 <= k < l < from.len() ==> is_before(#[trigger] from[k], #[trigger] from[l]),
        forall|at: (int, int)|
            at.0 < n && #[trigger] leads_to_a_save(modes, at) ==> from.contains(at),
    decreases n,
{
    if n == 0 {
        Seq::empty()
    } else {
        let before = lemma_origins(modes, (n - 1) as nat);
        let mode = modes[n - 1]->Ok_0;
        lemma_looked_into(mode.name, mode.is_directory);
        if is_looked_into(mode.name, mode.is_directory) {
            let saves = mode.saves->Ok_0;
            let inside = lemma_origins_in_mode(mode.name, saves, saves.len());
            let more = Seq::new(inside.len(), |k: int| (n - 1, inside[k]));
            let from = before + more;
            let entries = saves_of_modes(modes, n)->Ok_0;
            assert forall|k: int| 0 <= k < from.len() implies {
                &&& (#[trigger] from[k]).0 < n
                &&& leads_to_a_save(modes, from[k])
                &&& entries[k] == save_there(modes, from[k])
            } by {
                if k < before.len() {
                    assert(from[k] == before[k]);
                } else {
                    let m = k - before.len();
                    assert(from[k] == more[m]);
                    assert(inside[m] == inside[m]);
                }
            }
            assert forall|k: int, l: int| 0 <= k < l < from.len() implies is_before(
                #[trigger] from[k],
                #[trigger] from[l],
            ) by {
                if l < before.len() {
                    assert(is_before(before[k], before[l]));
                } else if k < before.len() {
                    assert(before[k].0 < n - 1);
                    assert(from[l] == more[l - before.len()]);
                } else {
                    assert(inside[k - before.len()] < inside[l - before.len()]);
                }
            }
            assert forall|at: (int, int)|
                at.0 < n && #[trigger] leads_to_a_save(modes, at) implies from.contains(at) by {
                if at.0 < n - 1 {
                    let k = choose|k: int| 0 <= k < before.len() && before[k] == at;
                    assert(from[k] == at);
                } else {
                    assert(saves[at.1] is Ok);
                    assert(inside.contains(at.1));
                    let k = choose|k: int| 0 <= k < inside.len() && inside[k] == at.1;
                    assert(more[k] == at);
                    assert(from[before.len() + k] == at);
                }
            }
            from
        } else {
            assert forall|at: (int, int)|
                at.0 < n && #[trigger] leads_to_a_save(modes, at) implies before.contains(
                at,
            ) by {
                assert(at.0 < n - 1);
            }
            before
        }
    }
}

/// Whether saves are listed exactly as they lie on disk, each once; `from` says for each where it
/// lies.
pub open spec fn lists_the_saves(
    listed: Seq<SaveEntryView>,
    from: Seq<(int, int)>,
    modes: Seq<Result<FoundModeView, Seq<char>>>,
) -> bool {
    &&& from.len() == listed.len()
    &&& forall|k: int|
        0 <= k < from.len() ==> {
            &&& leads_to_a_save(modes, #[trigger] from[k])
            &&& listed[k] == save_there(modes, from[k])
        }
    &&& forall|k: int, l: int| 0 <= k < l < from.len() ==> #[trigger] from[k] != #[trigger] from[l]
    &&& forall|at: (int, int)| #[trigger] leads_to_a_save(modes, at) ==> from.contains(at)
}

/// The local saves are listed as they are: every directory inside a directory of a mode, however
/// many there are and whatever their names, leaving out only `__MACOSX`; each once, with the names
/// of its mode and its own and with its path, and nothing else.
pub proof fn law_every_local_save_is_listed(modes: Seq<Result<FoundModeView, Seq<char>>>)
    requires
        local_saves(true, Ok(modes)) is Ok,
    ensures
        exists|from: Seq<(int, int)>| #[trigger]
            lists_the_saves(local_saves(true, Ok(modes))->Ok_0, from, modes),
{
    let entries = saves_of_modes(modes, modes.len())->Ok_0;
    let listed = local_saves(true, Ok(modes))->Ok_0;
    let origins = lemma_origins(modes, modes.len());
    let keys = save_keys(entries);
    let order = stable_order_of(keys);
    law_sorting_rearranges(keys);
    assert(listed == arranged(entries, order));
    let from = Seq::new(order.len(), |k: int| origins[order[k]]);
    assert forall|k: int| 0 <= k < from.len() implies {
        &&& leads_to_a_save(modes, #[trigger] from[k])
        &&& listed[k] == save_there(modes, from[k])
    } by {
        assert(0 <= order[k] < keys.len());
        assert(from[k] == origins[order[k]]);
        assert(listed[k] == entries[order[k]]);
    }
    assert forall|k: int, l: int| 0 <= k < l < from.len() implies #[trigger] from[k]
        != #[trigger] from[l] by {
        assert(order[k] != order[l]);
        if order[k] < order[l] {
            assert(is_before(origins[order[k]], origins[order[l]]));
        } else {
            assert(is_before(origins[order[l]], origins[order[k]]));
        }
    }
    assert forall|at: (int, int)| #[trigger] leads_to_a_save(modes, at) implies from.contains(
        at,
    ) by {
        assert(origins.contains(at));
        let i = choose|i: int| 0 <= i < origins.len() && origins[i] == at;
        assert(order.contains(i));
        let k = choose|k: int| 0 <= k < order.len() && order[k] == i;
        assert(from[k] == at);
    }
    assert(lists_the_saves(listed, from, modes));
}

/// Saves are listed by the UTF-8 bytes of their modes, and within a mode by those of their names.
pub proof fn law_saves_come_in_order(
    modes: Seq<Result<FoundModeView, Seq<char>>>,
    k: int,
    l: int,
)
    requires
        local_saves(true, Ok(modes)) is Ok,
        0 <= k < l < local_saves(true, Ok(modes))->Ok_0.len(),
    ensures
        ({
            let a = local_saves(true, Ok(modes))->Ok_0[k];
            let b = local_saves(true, Ok(modes))->Ok_0[l];
            ||| bytes_less(encode_utf8(a.mode), encode_utf8(b.mode))
            ||| encode_utf8(a.mode) == encode_utf8(b.mode) && (encode_utf8(a.name) == encode_utf8(
                b.name,
            ) || bytes_less(encode_utf8(a.name), encode_utf8(b.name)))
        }),
{
    let a = local_saves(true, Ok(modes))->Ok_0[k];
    let b = local_saves(true, Ok(modes))->Ok_0[l];
    law_listing_is_sorted(modes, k, l);
    law_texts_are_sorted_by_their_bytes(a.mode, a.name, b.mode, b.name);
}

proof fn lemma_readable_mode(
    mode: Seq<char>,
    saves: Seq<Result<FoundSaveView, Seq<char>>>,
    n: nat,
)
    requires
        n <= saves.len(),
    ensures
        saves_of_mode(mode, saves, n) is Ok <==> forall|j: int|
            0 <= j < n ==> (#[trigger] saves[j]) is Ok,
    decreases n,
{
    if n > 0 {
        lemma_readable_mode(mode, saves, (n - 1) as nat);
        if saves_of_mode(mode, saves, n) is Ok {
            assert forall|j: int| 0 <= j < n implies (#[trigger] saves[j]) is Ok by {}
        } else if saves_of_mode(mode, saves, (n - 1) as nat) is Ok {
            assert(saves[n - 1] is Err);
        }
    }
}

/// Whether all that belongs to an entry of the directory of the saves could be read.
pub open spec fn is_readable(mode: Result<FoundModeView, Seq<char>>) -> bool {
    &&& mode matches Ok(found)
    &&& is_looked_into(found.name, found.is_directory) ==> {
        &&& found.saves matches Ok(saves)
        &&& forall|j: int| 0 <= j < saves.len() ==> (#[trigger] saves[j]) is Ok
    }
}

proof fn lemma_readable_modes(modes: Seq<Result<FoundModeView, Seq<char>>>, n: nat)
    requires
        n <= modes.len(),
    ensures
        saves_of_modes(modes, n) is Ok <==> forall|i: int|
            0 <= i < n ==> is_readable(#[trigger] modes[i]),
    decreases n,
{
    if n > 0 {
        lemma_readable_modes(modes, (n - 1) as nat);
        let last = modes[n - 1];
        if last is Ok {
            let mode = last->Ok_0;
            lemma_looked_into(mode.name, mode.is_directory);
            if mode.saves is Ok {
                lemma_readable_mode(mode.name, mode.saves->Ok_0, mode.saves->Ok_0.len());
            }
        }
        if saves_of_modes(modes, (n - 1) as nat) is Ok {
            assert(saves_of_modes(modes, n) is Ok <==> is_readable(last));
        }
    }
}

/// The local saves are listed exactly when the directory of the saves is one and everything in it
/// that is looked into can be read.
pub proof fn law_readable_saves_are_listed(
    root_is_directory: bool,
    modes: Result<Seq<Result<FoundModeView, Seq<char>>>, Seq<char>>,
)
    ensures
        local_saves(root_is_directory, modes) is Ok <==> root_is_directory && modes is Ok
            && forall|i: int|
            0 <= i < modes->Ok_0.len() ==> is_readable(#[trigger] modes->Ok_0[i]),
{
    if modes is Ok {
        lemma_readable_modes(modes->Ok_0, modes->Ok_0.len());
    }
}

/// Where the local saves cannot be listed at all, the reason is told.
pub proof fn law_unlisted_saves_are_told(
    modes: Result<Seq<Result<FoundModeView, Seq<char>>>, Seq<char>>,
    name: Seq<char>,
    e: Seq<char>,
)
    ensures
        local_saves(false, modes) == Err::<Seq<SaveEntryView>, Seq<char>>("Saves 目录不存在"@),
        local_saves(true, Err(e)) == Err::<Seq<SaveEntryView>, Seq<char>>(
            "读取 Saves 目录失败"@ + ": "@ + e,
        ),
        mode_failed(name, e) == "读取 "@ + name + " 失败"@ + ": "@ + e,
{
}

}

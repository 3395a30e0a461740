//! What a walk through a save comes across.

use crate::names::{
    is_ignored_metadata_directory, is_metadata_name, law_metadata_is_told_by_its_name,
};
use crate::text::{ascii_lower, text_result};
use vstd::prelude::*;

verus! {

/// The size of a file, and its modification time in nanoseconds since the epoch, where it is known
/// and not before it.
#[derive(Clone, Copy)]
pub struct FileFacts {
    pub bytes: u64,
    pub since_epoch: Option<u128>,
}

/// Something that a walk comes across.
pub struct WalkedEntry {
    /// The names on the way to it, from that of the save to its own.
    pub names: Vec<String>,
    /// Its path relative to the save, as far as it could be determined.
    pub relative: Result<String, String>,
    /// Whether it is a file.
    pub is_file: bool,
    /// What is known of it as a file, as far as that could be read.
    pub facts: Result<FileFacts, String>,
}

pub struct WalkedEntryView {
    pub names: Seq<Seq<char>>,
    pub relative: Result<Seq<char>, Seq<char>>,
    pub is_file: bool,
    pub facts: Result<FileFacts, Seq<char>>,
}

impl View for WalkedEntry {
    type V = WalkedEntryView;

    open spec fn view(&self) -> WalkedEntryView {
        WalkedEntryView {
            names: self.names@.map_values(|n: String| n@),
            relative: text_result(self.relative),
            is_file: self.is_file,
            facts: match self.facts {
                Ok(facts) => Ok(facts),
                Err(e) => Err(e@),
            },
        }
    }
}

/// A step of a walk: what it came across, or why it came no further.
pub type WalkStep = Result<WalkedEntry, String>;

pub type WalkStepView = Result<WalkedEntryView, Seq<char>>;

/// The steps of a walk as values of the model.
pub open spec fn walk_views(walked: Seq<WalkStep>) -> Seq<WalkStepView> {
    walked.map_values(
        |step: WalkStep|
            match step {
                Ok(entry) => Ok::<WalkedEntryView, Seq<char>>(entry@),
                Err(e) => Err(e@),
            },
    )
}

/// Whether an entry is a file of the save: it is a file, and no name on the way to it is that of a
/// directory of archive metadata.
pub open spec fn is_file_of_the_save(entry: WalkedEntryView) -> bool {
    &&& entry.is_file
    &&& forall|i: int| 0 <= i < entry.names.len() ==> !is_metadata_name(#[trigger] entry.names[i])
}

/// Whether the step at `i` came across a file of the save.
pub open spec fn finds_file(walked: Seq<WalkStepView>, i: int) -> bool {
    &&& 0 <= i < walked.len()
    &&& walked[i] is Ok
    &&& is_file_of_the_save(walked[i]->Ok_0)
}

impl WalkedEntry {
    /// Whether this is a file of the save.
    pub fn belongs_to_the_save(&self) -> (belongs: bool)
        ensures
            belongs == is_file_of_the_save(self@),
    {
        if !self.is_file {
            return false;
        }
        let mut i: usize = 0;
        while i < self.names.len()
            invariant
                i <= self.names@.len(),
                forall|k: int| 0 <= k < i ==> !is_metadata_name(#[trigger] self@.names[k]),
            decreases self.names@.len() - i,
        {
            if is_ignored_metadata_directory(self.names[i].as_str()) {
                assert(is_metadata_name(self@.names[i as int]));
                return false;
            }
            i = i + 1;
        }
        true
    }
}

/// Whether none of these names is that of a directory of archive metadata: `__MACOSX`, in any ASCII
/// case.
pub open spec fn lie_outside_metadata(names: Seq<Seq<char>>) -> bool {
    forall|i: int| 0 <= i < names.len() ==> ascii_lower(#[trigger] names[i]) != "__macosx"@
}

/// Which steps of a walk came across a file of the save depends on two things only: that it is a
/// file, and that `__MACOSX` is not among the names that lead to it, however many there are.
pub proof fn law_files_are_told_by_kind_and_names(walked: Seq<WalkStepView>, i: int)
    requires
        0 <= i < walked.len(),
        walked[i] is Ok,
    ensures
        finds_file(walked, i) <==> walked[i]->Ok_0.is_file && lie_outside_metadata(
            walked[i]->Ok_0.names,
        ),
        is_file_of_the_save(walked[i]->Ok_0) <==> finds_file(walked, i),
{
    let names = walked[i]->Ok_0.names;
    reveal_strlit("__macosx");
    assert forall|k: int| 0 <= k < names.len() implies is_metadata_name(#[trigger] names[k]) == (
    ascii_lower(names[k]) == "__macosx"@) by {
        law_metadata_is_told_by_its_name(names[k]);
    }
    if is_file_of_the_save(walked[i]->Ok_0) {
        assert forall|k: int| 0 <= k < names.len() implies ascii_lower(#[trigger] names[k])
            != "__macosx"@ by {
            assert(!is_metadata_name(names[k]));
        }
    }
}

/// A walk is taken step by step as it is: no step is added or lost, and of each everything counts.
pub proof fn law_every_step_counts(walked: Seq<WalkStep>, i: int)
    requires
        0 <= i < walked.len(),
    ensures
        walk_views(walked).len() == walked.len(),
        match walked[i] {
            Err(e) => walk_views(walked)[i] is Err && walk_views(walked)[i]->Err_0 == e@,
            Ok(entry) => {
                &&& walk_views(walked)[i] matches Ok(view)
                &&& view.names.len() == entry.names@.len()
                &&& forall|k: int|
                    0 <= k < entry.names@.len() ==> #[trigger] view.names[k] == entry.names@[k]@
                &&& view.is_file == entry.is_file
                &&& view.relative is Ok == entry.relative is Ok
                &&& entry.relative is Ok ==> view.relative->Ok_0 == entry.relative->Ok_0@
                &&& view.facts is Ok == entry.facts is Ok
                &&& entry.facts is Ok ==> view.facts->Ok_0 == entry.facts->Ok_0
            },
        },
{
}

}

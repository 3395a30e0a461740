//! Where the program keeps its files.

use crate::digest::{
    cache_identity, cache_key, is_digest_text, law_cache_key_holds_mode_and_name, text_digest,
};
use crate::names::temporary_archive_name;
use crate::text::decimal;
use vstd::prelude::*;

verus! {

/// A directory that paths start from.
#[derive(Clone, Copy, Debug, PartialEq, Eq, Structural)]
pub enum Anchor {
    /// The home directory of the user.
    Home,
    /// The directory for the program's data.
    Data,
}

/// A path: the components to be joined to a directory, one after the other.
#[derive(Debug, PartialEq, Eq)]
pub struct LocalPath {
    pub anchor: Anchor,
    pub components: Vec<String>,
}

#[verifier::ext_equal]
pub struct LocalPathView {
    pub anchor: Anchor,
    pub components: Seq<Seq<char>>,
}

impl View for LocalPath {
    type V = LocalPathView;

    open spec fn view(&self) -> LocalPathView {
        LocalPathView {
            anchor: self.anchor,
            components: self.components@.map_values(|c: String| c@),
        }
    }
}

/// The path of `name` in the directory `directory`.
pub open spec fn child_of(directory: LocalPathView, name: Seq<char>) -> LocalPathView {
    LocalPathView { components: directory.components.push(name), ..directory }
}

impl LocalPath {
    /// The directory that `anchor` stands for.
    pub fn at(anchor: Anchor) -> (path: LocalPath)
        ensures
            path@ == (LocalPathView { anchor, components: Seq::empty() }),
    {
        let path = LocalPath { anchor, components: Vec::new() };
        assert(path@ =~= (LocalPathView { anchor, components: Seq::empty() }));
        path
    }

    /// The path of `name` in this directory.
    pub fn child(self, name: &str) -> (path: LocalPath)
        ensures
            path@ == child_of(self@, name@),
    {
        let LocalPath { anchor, components } = self;
        let mut components = components;
        components.push(name.to_owned());
        let path = LocalPath { anchor, components };
        assert(path@ =~= child_of(self@, name@));
        path
    }

    /// The same path once more.
    pub fn copy(&self) -> (copy: LocalPath)
        ensures
            copy@ == self@,
    {
        let mut path = LocalPath::at(self.anchor);
        let mut i: usize = 0;
        while i < self.components.len()
            invariant
                i <= self.components@.len(),
                path@ == (LocalPathView {
                    anchor: self.anchor,
                    components: self@.components.take(i as int),
                }),
            decreases self.components@.len() - i,
        {
            path = path.child(self.components[i].as_str());
            assert(self@.components.take(i + 1) == self@.components.take(i as int).push(
                self.components@[i as int]@,
            ));
            i = i + 1;
        }
        assert(self@.components.take(i as int) == self@.components);
        path
    }
}

/// The directory that holds the cached archive of a save.
pub open spec fn cache_directory_of(save_mode: Seq<char>, save_name: Seq<char>) -> LocalPathView {
    LocalPathView {
        anchor: Anchor::Data,
        components: seq!["save-archives"@, text_digest(cache_key(save_mode, save_name))],
    }
}

/// The directory that holds the cached archive of a save. It lies among the program's data, which
/// the system does not clean up, and its name is a digest.
pub fn cache_directory(save_mode: &str, save_name: &str) -> (directory: LocalPath)
    ensures
        directory@ == cache_directory_of(save_mode@, save_name@),
        is_digest_text(directory@.components.last()),
{
    let identity = cache_identity(save_mode, save_name);
    let directory = LocalPath::at(Anchor::Data).child("save-archives").child(identity.as_str());
    assert(directory@ =~= cache_directory_of(save_mode@, save_name@));
    directory
}

/// The archive in the directory of a cache.
pub open spec fn archive_file_of(directory: LocalPathView) -> LocalPathView {
    child_of(directory, "save.zip"@)
}

/// The archive in the directory of a cache.
pub fn archive_file(directory: LocalPath) -> (file: LocalPath)
    ensures
        file@ == archive_file_of(directory@),
{
    directory.child("save.zip")
}

/// What is remembered of the archive, in the directory of a cache.
pub open spec fn metadata_file_of(directory: LocalPathView) -> LocalPathView {
    child_of(directory, "cache.json"@)
}

/// What is remembered of the archive, in the directory of a cache.
pub fn metadata_file(directory: LocalPath) -> (file: LocalPath)
    ensures
        file@ == metadata_file_of(directory@),
{
    directory.child("cache.json")
}

/// The state of an upload under way, in the directory of a cache.
pub open spec fn resume_file_of(directory: LocalPathView) -> LocalPathView {
    child_of(directory, "resume.json"@)
}

/// The state of an upload under way, in the directory of a cache.
pub fn resume_file(directory: LocalPath) -> (file: LocalPath)
    ensures
        file@ == resume_file_of(directory@),
{
    directory.child("resume.json")
}

/// An archive before it takes the place of the old one, in the directory of a cache.
pub open spec fn temporary_archive_of(directory: LocalPathView, process_id: u32) -> LocalPathView {
    child_of(directory, "save."@ + decimal(process_id as nat) + ".tmp"@)
}

/// An archive before it takes the place of the old one, in the directory of a cache.
pub fn temporary_archive(directory: LocalPath, process_id: u32) -> (file: LocalPath)
    ensures
        file@ == temporary_archive_of(directory@, process_id),
{
    directory.child(temporary_archive_name(process_id).as_str())
}

/// The directory of the saves: `Zomboid/Saves` in the home directory.
pub open spec fn save_root_of_user() -> LocalPathView {
    LocalPathView { anchor: Anchor::Home, components: seq!["Zomboid"@, "Saves"@] }
}

/// The directory of the saves in the home directory.
pub fn save_root() -> (root: LocalPath)
    ensures
        root@ == save_root_of_user(),
{
    let root = LocalPath::at(Anchor::Home).child("Zomboid").child("Saves");
    assert(root@ =~= save_root_of_user());
    root
}

/// The directory of the saves, where it is one, given whether the home directory is known.
pub fn detect_save_root(home_is_known: bool, root_is_directory: bool) -> (res: Result<
    Option<LocalPath>,
    String,
>)
    ensures
        match res {
            Ok(Some(root)) => home_is_known && root_is_directory && root@ == save_root_of_user(),
            Ok(None) => home_is_known && !root_is_directory,
            Err(e) => !home_is_known && e@ == "无法找到用户目录"@,
        },
{
    if !home_is_known {
        Err("无法找到用户目录".to_owned())
    } else if root_is_directory {
        Ok(Some(save_root()))
    } else {
        Ok(None)
    }
}

/// The files of a cache are four different ones, and lie in its directory.
pub proof fn law_files_of_a_cache_do_not_collide(directory: LocalPathView, process_id: u32)
    ensures
        ({
            let archive = archive_file_of(directory);
            let metadata = metadata_file_of(directory);
            let resume = resume_file_of(directory);
            let temporary = temporary_archive_of(directory, process_id);
            &&& archive != metadata && archive != resume && archive != temporary
            &&& metadata != resume && metadata != temporary && resume != temporary
            &&& archive.components.drop_last() == directory.components
            &&& metadata.components.drop_last() == directory.components
            &&& resume.components.drop_last() == directory.components
            &&& temporary.components.drop_last() == directory.components
        }),
{
    reveal_strlit("save.zip");
    reveal_strlit("cache.json");
    reveal_strlit("resume.json");
    reveal_strlit("save.");
    reveal_strlit(".tmp");
    let name = "save."@ + decimal(process_id as nat) + ".tmp"@;
    assert("save.zip"@[0] == 's' && "cache.json"@[0] == 'c' && "resume.json"@[0] == 'r');
    assert("save.zip"@.last() == 'p');
    assert(name[0] == 's' && name.last() == 'p');
    assert("save.zip"@[6] == 'i');
    assert(name[name.len() - 2] == 'm');
    assert("save.zip"@[6] == "save.zip"@["save.zip"@.len() - 2]);
    assert(archive_file_of(directory).components.last() == "save.zip"@);
    assert(metadata_file_of(directory).components.last() == "cache.json"@);
    assert(resume_file_of(directory).components.last() == "resume.json"@);
    assert(temporary_archive_of(directory, process_id).components.last() == name);
    assert(archive_file_of(directory).components.drop_last() == directory.components);
    assert(metadata_file_of(directory).components.drop_last() == directory.components);
    assert(resume_file_of(directory).components.drop_last() == directory.components);
    assert(temporary_archive_of(directory, process_id).components.drop_last()
        == directory.components);
}

/// The archive of a save, what is remembered of it and the state of its upload lie among the
/// program's data, in `save-archives`, in a directory named by the digest of mode and name.
pub proof fn law_place_of_a_cache(
    save_mode: Seq<char>,
    save_name: Seq<char>,
    key: Seq<char>,
    process_id: u32,
)
    requires
        key == save_mode + seq!['\0'] + save_name,
    ensures
        ({
            let directory = cache_directory_of(save_mode, save_name);
            &&& directory.anchor == Anchor::Data
            &&& directory.components == seq!["save-archives"@, text_digest(key)]
            &&& archive_file_of(directory).anchor == Anchor::Data
            &&& archive_file_of(directory).components == directory.components.push("save.zip"@)
            &&& metadata_file_of(directory).anchor == Anchor::Data
            &&& metadata_file_of(directory).components == directory.components.push("cache.json"@)
            &&& resume_file_of(directory).anchor == Anchor::Data
            &&& resume_file_of(directory).components == directory.components.push("resume.json"@)
            &&& temporary_archive_of(directory, process_id).anchor == Anchor::Data
            &&& temporary_archive_of(directory, process_id).components
                == directory.components.push("save."@ + decimal(process_id as nat) + ".tmp"@)
        }),
{
    law_cache_key_holds_mode_and_name(save_mode, save_name);
    assert(cache_key(save_mode, save_name) =~= key);
}

/// The saves of the user lie in `Zomboid`, and there in `Saves`, in the home directory.
pub proof fn law_place_of_the_saves()
    ensures
        save_root_of_user().anchor == Anchor::Home,
        save_root_of_user().components.len() == 2,
        save_root_of_user().components[0] == "Zomboid"@,
        save_root_of_user().components[1] == "Saves"@,
{
}

}

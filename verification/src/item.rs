//! Directory entries as a scan reports them, and the files among them that
//! can be renamed.

use crate::naming::{lemma_new_names_differ, new_name, new_name_text};
use crate::timestamp::Timestamp;
use vstd::prelude::*;
use vstd::std_specs::convert::FromSpecImpl;

verus! {

/// The error type of the operating system's file interface. The library
/// never looks inside one: it hands on, untouched, what it was given.
#[verifier::external_type_specification]
#[verifier::external_body]
pub struct ExIoError(std::io::Error);

/// What the scan knows about an entry beyond its path.
#[derive(Debug)]
pub struct Metadata {
    /// When the entry was created, or why the file system cannot tell.
    pub created: Result<Timestamp, std::io::Error>,
    /// Whether the entry is a directory.
    pub is_dir: bool,
}

/// One entry of the scanned directory, as the scan reports it.
#[derive(Debug)]
pub struct Entry {
    /// The final component of the entry's path; `None` if the path has none
    /// or if it is not valid UTF-8.
    pub name: Option<String>,
    /// The directory that holds the entry; `None` if the path has no parent.
    pub parent: Option<String>,
    /// The entry's metadata, or why it could not be read.
    pub metadata: Result<Metadata, std::io::Error>,
}

/// A path, known by the directory it lies in and its final component.
#[derive(Debug)]
pub struct ItemPath {
    /// The directory that holds the file.
    pub parent: String,
    /// The file's name within that directory.
    pub name: String,
}

impl View for ItemPath {
    type V = (Seq<char>, Seq<char>);

    /// Parent directory and final component.
    open spec fn view(&self) -> (Seq<char>, Seq<char>) {
        (self.parent@, self.name@)
    }
}

/// Why an entry is not a file that can be renamed.
#[derive(Debug)]
pub enum FsItemError {
    /// The entry, its metadata or its creation time could not be read.
    Io(std::io::Error),
    /// The entry is a directory.
    ItemIsDir,
    /// The entry's path has no final component, or one that is not text.
    NameFailed,
    /// The entry's path has no parent directory.
    ParentFailed,
}

impl From<std::io::Error> for FsItemError {
    fn from(error: std::io::Error) -> (r: FsItemError) {
        FsItemError::Io(error)
    }
}

impl FromSpecImpl<std::io::Error> for FsItemError {
    open spec fn obeys_from_spec() -> bool {
        true
    }

    open spec fn from_spec(error: std::io::Error) -> FsItemError {
        FsItemError::Io(error)
    }
}

/// A file that can be renamed: what it is called, what it will be called,
/// and where it lies.
#[derive(Debug)]
pub struct FsItem {
    /// When the file was created.
    pub created: Timestamp,
    /// The file's name so far.
    pub name: String,
    /// The name the file is to get.
    pub new_name: String,
    /// Where the file lies now.
    pub path: ItemPath,
    /// Where the file is to lie.
    pub new_path: ItemPath,
}

/// An item as the contracts see it.
pub struct ItemView {
    /// When the file was created.
    pub created: Timestamp,
    /// The file's name so far.
    pub name: Seq<char>,
    /// The name the file is to get.
    pub new_name: Seq<char>,
    /// Where the file lies now: its directory and its name.
    pub path: (Seq<char>, Seq<char>),
    /// Where the file is to lie: its directory and its new name.
    pub new_path: (Seq<char>, Seq<char>),
}

impl ItemView {
    /// The item for a file called `name`, created at `created`, in the
    /// directory `parent`.
    pub open spec fn of(created: Timestamp, name: Seq<char>, parent: Seq<char>) -> ItemView {
        ItemView {
            created,
            name,
            new_name: new_name_text(created, name),
            path: (parent, name),
            new_path: (parent, new_name_text(created, name)),
        }
    }

    /// The new name is derived from creation time and old name alone, the
    /// file keeps its directory, and the paths end in the two names.
    pub open spec fn wf(self) -> bool {
        &&& self.new_name == new_name_text(self.created, self.name)
        &&& self.new_name.len() > 0
        &&& self.path.1 == self.name
        &&& self.new_path.1 == self.new_name
        &&& self.new_path.0 == self.path.0
    }
}

impl View for FsItem {
    type V = ItemView;

    open spec fn view(&self) -> ItemView {
        ItemView {
            created: self.created,
            name: self.name@,
            new_name: self.new_name@,
            path: self.path@,
            new_path: self.new_path@,
        }
    }
}

/// Every item made of a creation time, a name and a directory is well
/// formed.
pub proof fn lemma_item_wf(created: Timestamp, name: Seq<char>, parent: Seq<char>)
    ensures
        ItemView::of(created, name, parent).wf(),
{
}

/// Two files of one directory that were created at the same instant are
/// to lie at the same place only if they had the same name before.
pub proof fn lemma_targets_differ(created: Timestamp, a: Seq<char>, b: Seq<char>, parent: Seq<char>)
    requires
        a != b,
    ensures
        ItemView::of(created, a, parent).new_name != ItemView::of(created, b, parent).new_name,
        ItemView::of(created, a, parent).new_path != ItemView::of(created, b, parent).new_path,
{
    lemma_new_names_differ(created, a, b);
}

/// What becomes of an entry: the item it yields, or the first reason, in
/// the order of the checks, why it yields none. A failed read comes before
/// everything else, so a directory whose creation time cannot be read is
/// reported as a failed read.
pub open spec fn classified(entry: Result<Entry, std::io::Error>) -> Result<ItemView, FsItemError> {
    match entry {
        Err(error) => Err(FsItemError::Io(error)),
        Ok(entry) => match entry.metadata {
            Err(error) => Err(FsItemError::Io(error)),
            Ok(metadata) => match metadata.created {
                Err(error) => Err(FsItemError::Io(error)),
                Ok(created) => if metadata.is_dir {
                    Err(FsItemError::ItemIsDir)
                } else if entry.name is None {
                    Err(FsItemError::NameFailed)
                } else if entry.parent is None {
                    Err(FsItemError::ParentFailed)
                } else {
                    Ok(ItemView::of(created, entry.name->Some_0@, entry.parent->Some_0@))
                },
            },
        },
    }
}

/// Whether `result` is the outcome that `expected` describes: the same
/// error, or an item with that view.
pub open spec fn is_outcome(
    result: Result<FsItem, FsItemError>,
    expected: Result<ItemView, FsItemError>,
) -> bool {
    match expected {
        Ok(view) => result matches Ok(item) && item@ == view,
        Err(error) => result == Err::<FsItem, FsItemError>(error),
    }
}

/// A failed attempt to rename an item.
#[derive(Debug)]
pub struct FsItemRenameError<'a> {
    /// The item that was to be renamed.
    pub item: &'a FsItem,
    /// Why the file system refused.
    pub reason: std::io::Error,
}

/// How an attempt to rename `item` is recorded: the item itself if the
/// file system did it, the item with the reason if it refused.
pub open spec fn attempt<'a>(item: &'a FsItem, outcome: Result<(), std::io::Error>) -> Result<
    &'a FsItem,
    FsItemRenameError<'a>,
> {
    match outcome {
        Ok(_) => Ok(item),
        Err(reason) => Err(FsItemRenameError { item, reason }),
    }
}

impl ItemPath {
    /// A second copy of this path.
    pub fn duplicate(&self) -> (r: ItemPath)
        ensures
            r == *self,
    {
        ItemPath { parent: self.parent.clone(), name: self.name.clone() }
    }
}

impl FsItem {
    /// Classifies one entry of the scan: a file with a readable creation
    /// time, a name that is text and a parent directory becomes an item;
    /// anything else is turned down with the reason.
    pub fn new(entry: Result<Entry, std::io::Error>) -> (r: Result<FsItem, FsItemError>)
        ensures
            is_outcome(r, classified(entry)),
            r matches Ok(item) ==> item@.wf(),
    {
        let entry = match entry {
            Ok(entry) => entry,
            Err(error) => {
                return Err(FsItemError::from(error));
            },
        };
        let metadata = match entry.metadata {
            Ok(metadata) => metadata,
            Err(error) => {
                return Err(FsItemError::from(error));
            },
        };
        let created = match metadata.created {
            Ok(created) => created,
            Err(error) => {
                return Err(FsItemError::from(error));
            },
        };
        if metadata.is_dir {
            return Err(FsItemError::ItemIsDir);
        }
        let name = match entry.name {
            Some(name) => name,
            None => {
                return Err(FsItemError::NameFailed);
            },
        };
        let new_name = new_name(&created, name.as_str());
        let parent = match entry.parent {
            Some(parent) => parent,
            None => {
                return Err(FsItemError::ParentFailed);
            },
        };
        let new_path = ItemPath { parent: parent.clone(), name: new_name.clone() };
        let path = ItemPath { parent, name: name.clone() };
        Ok(FsItem { created, name, new_name, path, new_path })
    }

    /// Records how the attempt to move this item to its new path ended:
    /// the item itself if the file system did it, the item with the reason
    /// if it refused.
    pub fn rename(&self, outcome: Result<(), std::io::Error>) -> (r: Result<
        &FsItem,
        FsItemRenameError<'_>,
    >)
        ensures
            r == attempt(self, outcome),
    {
        match outcome {
            Ok(()) => Ok(self),
            Err(reason) => Err(FsItemRenameError { item: self, reason }),
        }
    }
}

} // verus!

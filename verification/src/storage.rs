//! Where stored objects live.

use crate::ident::{is_alphanumeric, is_object_name, StoredObjectId};
use vstd::prelude::*;

verus! {

/// The symbol between a directory and its entry.
pub const SEPARATOR: char = '/';

/// The directory under which every stored object is a direct entry. It is
/// settled once, when the server starts, and handed to whoever stores.
#[derive(Debug, PartialEq, Eq)]
pub struct StorageRoot {
    dir: String,
}

impl View for StorageRoot {
    type V = Seq<char>;

    closed spec fn view(&self) -> Seq<char> {
        self.dir@
    }
}

impl StorageRoot {
    /// The root at the given directory.
    pub fn new(dir: String) -> (root: StorageRoot)
        ensures
            root@ == dir@,
    {
        StorageRoot { dir }
    }

    /// The directory as text.
    pub fn as_str(&self) -> (text: &str)
        ensures
            text@ == self@,
    {
        self.dir.as_str()
    }
}

/// Settles the storage root: the configured directory where one is set,
/// else the working directory. Without either there is no root, and the
/// server cannot start.
pub fn resolve_root(configured: Option<String>, working_dir: Option<String>) -> (root: Option<
    StorageRoot,
>)
    ensures
        match configured {
            Some(dir) => root matches Some(r) && r@ == dir@,
            None => match working_dir {
                Some(dir) => root matches Some(r) && r@ == dir@,
                None => root is None,
            },
        },
{
    match configured {
        Some(dir) => Some(StorageRoot::new(dir)),
        None => match working_dir {
            Some(dir) => Some(StorageRoot::new(dir)),
            None => None,
        },
    }
}

/// What stands before the name in the path of an entry: the directory,
/// closed by one separator unless it is empty or already ends in one.
pub open spec fn entry_prefix(root: Seq<char>) -> Seq<char> {
    if root.len() == 0 || root.last() == SEPARATOR {
        root
    } else {
        root.push(SEPARATOR)
    }
}

/// The path of the entry `name` directly under `root`.
pub open spec fn entry_path(root: Seq<char>, name: Seq<char>) -> Seq<char> {
    entry_prefix(root) + name
}

/// The path at which the object `id` is stored under `root`.
pub fn path_of(root: &StorageRoot, id: &StoredObjectId) -> (path: String)
    ensures
        path@ == entry_path(root@, id@),
{
    let dir = root.as_str();
    let len = dir.unicode_len();
    let mut path = String::from_str(dir);
    if len > 0 && dir.get_char(len - 1) != SEPARATOR {
        path.push(SEPARATOR);
    }
    path.append(id.as_str());
    path
}

/// Picks a fresh name and says where under `root` the object goes.
pub fn get_filename(root: &StorageRoot) -> (fresh: (StoredObjectId, String))
    ensures
        is_object_name(fresh.0@),
        fresh.1@ == entry_path(root@, fresh.0@),
{
    let id = StoredObjectId::generate();
    let path = path_of(root, &id);
    (id, path)
}

/// A name holds no separator, so the entry it names lies in the root
/// itself and in no directory below it: the path is the prefix of the
/// root followed by the name, and the name is its last component.
pub proof fn lemma_entries_are_flat(root: Seq<char>, name: Seq<char>)
    requires
        is_object_name(name),
    ensures
        !name.contains(SEPARATOR),
        entry_path(root, name).len() == entry_prefix(root).len() + name.len(),
        entry_path(root, name).subrange(0, entry_prefix(root).len() as int) == entry_prefix(root),
        entry_path(root, name).subrange(
            entry_prefix(root).len() as int,
            entry_path(root, name).len() as int,
        ) == name,
{
    assert forall|i: int| 0 <= i < name.len() implies name[i] != SEPARATOR by {
        assert(is_alphanumeric(name[i]));
    }
}

/// Under one root, two objects share a path only if they share a name.
pub proof fn lemma_paths_tell_names_apart(root: Seq<char>, a: Seq<char>, b: Seq<char>)
    requires
        entry_path(root, a) == entry_path(root, b),
    ensures
        a == b,
{
    let prefix = entry_prefix(root);
    let n = prefix.len() as int;
    assert(a == (prefix + a).subrange(n, (prefix + a).len() as int));
    assert(b == (prefix + b).subrange(n, (prefix + b).len() as int));
}

} // verus!

//! Which directory entries a listing shows, and how each is described.
use vstd::prelude::*;

verus! {

/// One entry of a directory listing.
#[derive(Debug, Clone)]
pub struct FileEntry {
    pub path: String,
    /// `"directory"` or `"file"`.
    pub file_type: String,
    pub name: String,
}

/// The kind label of an entry.
pub open spec fn kind_label(is_dir: bool) -> Seq<char> {
    if is_dir {
        "directory"@
    } else {
        "file"@
    }
}

/// Names a listing leaves out: hidden entries, and directories of
/// dependencies, build output and caches.
pub open spec fn excluded_name(n: Seq<char>) -> bool {
    ||| n.len() > 0 && n[0] == '.'
    ||| n == "node_modules"@
    ||| n == "dist"@
    ||| n == "build"@
    ||| n == "target"@
    ||| n == "__pycache__"@
    ||| n == "venv"@
}

/// Whether an entry of this name is left out of a listing.
pub fn is_excluded(name: &String) -> (r: bool)
    ensures
        r == excluded_name(name@),
{
    let mut chars = name.as_str().chars();
    if let Some(c) = chars.next() {
        if c == '.' {
            return true;
        }
    }
    *name == "node_modules".to_string() || *name == "dist".to_string() || *name
        == "build".to_string() || *name == "target".to_string() || *name
        == "__pycache__".to_string() || *name == "venv".to_string()
}

/// The listing entry for a file or directory, or `None` where its name is
/// excluded.
pub fn listing_entry(path: String, name: String, is_dir: bool) -> (r: Option<FileEntry>)
    ensures
        excluded_name(name@) ==> r is None,
        !excluded_name(name@) ==> (r matches Some(e) && e.path@ == path@ && e.name@ == name@
            && e.file_type@ == kind_label(is_dir)),
{
    if is_excluded(&name) {
        return None;
    }
    let file_type = if is_dir {
        "directory".to_string()
    } else {
        "file".to_string()
    };
    Some(FileEntry { path, file_type, name })
}

/// Whether a directory `depth` levels below the root of a listing bounded by
/// `max_depth` is read: the root is at depth 0, and depths from `max_depth`
/// on are not.
pub fn within_depth(depth: u32, max_depth: u32) -> (r: bool)
    ensures
        r == (depth < max_depth),
{
    depth < max_depth
}

} // verus!

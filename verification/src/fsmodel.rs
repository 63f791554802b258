//! The filesystem domain: paths, files and folders as graph vertices.
//!
//! Listing directories, reading bytes and hashing are outside concerns;
//! what the resolution contract decides on — the path text, the variant,
//! and type membership — lives here. A file and a folder are both kinds
//! of path, so either coerces to the path type.

use vstd::prelude::*;

use crate::chars;

verus! {

/// The filesystem adapter: stateless, every property is answered from
/// the vertex itself.
#[derive(Debug, PartialEq, Eq, Structural)]
pub struct FileSystemAdapter {}

impl FileSystemAdapter {
    pub fn new() -> (r: FileSystemAdapter)
        ensures
            r == (FileSystemAdapter {  }),
    {
        FileSystemAdapter {  }
    }
}

impl Default for FileSystemAdapter {
    fn default() -> (r: FileSystemAdapter)
        ensures
            r == (FileSystemAdapter {  }),
    {
        FileSystemAdapter {  }
    }
}

/// One filesystem vertex, holding its path text.
#[derive(Debug, Clone, PartialEq)]
pub enum FsVertex {
    File(String),
    Folder(String),
    Path(String),
}

pub enum FsVertexModel {
    File(Seq<char>),
    Folder(Seq<char>),
    Path(Seq<char>),
}

impl View for FsVertex {
    type V = FsVertexModel;

    open spec fn view(&self) -> FsVertexModel {
        match self {
            FsVertex::File(p) => FsVertexModel::File(p@),
            FsVertex::Folder(p) => FsVertexModel::Folder(p@),
            FsVertex::Path(p) => FsVertexModel::Path(p@),
        }
    }
}

/// The path text a vertex holds, whatever its variant.
pub open spec fn fs_path_of(v: FsVertexModel) -> Seq<char> {
    match v {
        FsVertexModel::File(p) => p,
        FsVertexModel::Folder(p) => p,
        FsVertexModel::Path(p) => p,
    }
}

pub open spec fn fs_typename_of(v: FsVertexModel) -> Seq<char> {
    match v {
        FsVertexModel::File(_) => "File"@,
        FsVertexModel::Folder(_) => "Folder"@,
        FsVertexModel::Path(_) => "Path"@,
    }
}

/// Type membership in the filesystem schema: a vertex is its own type,
/// and a file or folder is also a path.
pub open spec fn fs_coerces(v: FsVertexModel, target: Seq<char>) -> bool {
    fs_typename_of(v) == target || target == "Path"@
}

impl FsVertex {
    pub fn typename(&self) -> (r: &'static str)
        ensures
            r@ == fs_typename_of(self@),
    {
        match self {
            FsVertex::File(_) => "File",
            FsVertex::Folder(_) => "Folder",
            FsVertex::Path(_) => "Path",
        }
    }

    /// The `path` property: the stored path text.
    pub fn path(&self) -> (r: String)
        ensures
            r@ == fs_path_of(self@),
    {
        match self {
            FsVertex::File(p) => p.clone(),
            FsVertex::Folder(p) => p.clone(),
            FsVertex::Path(p) => p.clone(),
        }
    }

    /// Whether this vertex is a member of the target schema type.
    pub fn coerces_to(&self, target: &str) -> (r: bool)
        ensures
            r == fs_coerces(self@, target@),
    {
        chars::str_eq(self.typename(), target) || chars::str_eq("Path", target)
    }
}

} // verus!

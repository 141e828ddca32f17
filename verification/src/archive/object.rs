//! The objects of an archive: files and directories, with the descriptor that
//! opens each and the epilogue that closes a file.

use crate::archive::error::ArchiveError;
use crate::sodium::{hex, to_hex};
use crate::text::str_eq;
use vstd::prelude::*;

verus! {

/// What an object is.
#[derive(Clone, Copy, Debug, PartialEq, Eq, Structural)]
pub enum ObjectType {
    /// A regular file: its descriptor is followed by content and an epilogue.
    File,
    /// A directory: nothing follows its descriptor.
    Directory,
}

impl ObjectType {
    /// The word that stands for the type in a descriptor.
    pub open spec fn spec_name(self) -> Seq<char> {
        match self {
            ObjectType::File => "file"@,
            ObjectType::Directory => "directory"@,
        }
    }

    /// The word that stands for the type in a descriptor.
    pub fn name(self) -> (res: &'static str)
        ensures
            res@ == self.spec_name(),
    {
        match self {
            ObjectType::File => "file",
            ObjectType::Directory => "directory",
        }
    }

    /// The type that `word` stands for, if it stands for one.
    pub open spec fn of_name(word: Seq<char>) -> Option<ObjectType> {
        if word == "directory"@ {
            Some(ObjectType::Directory)
        } else if word == "file"@ {
            Some(ObjectType::File)
        } else {
            None
        }
    }

    /// The type that `word` stands for, if it stands for one.
    pub fn parse(word: &str) -> (res: Option<ObjectType>)
        ensures
            res == Self::of_name(word@),
    {
        if str_eq(word, "directory") {
            Some(ObjectType::Directory)
        } else if str_eq(word, "file") {
            Some(ObjectType::File)
        } else {
            None
        }
    }

    /// Every type is the type that its own word stands for.
    pub proof fn lemma_name_round_trip(kind: ObjectType)
        ensures
            Self::of_name(kind.spec_name()) == Some(kind),
    {
        reveal_strlit("file");
        reveal_strlit("directory");
        assert("file"@.len() != "directory"@.len());
    }
}

/// The epilogue of a file, as plain values.
pub struct EpilogueView {
    /// The number of bytes of the file.
    pub size: u64,
    /// The hex text of the hash of the file's content.
    pub hash: Seq<char>,
}

/// The trailer of a file object: how long the content was and what it hashes
/// to.
#[derive(Debug)]
pub struct ObjectEpilogue {
    /// The number of bytes of the file.
    pub size: u64,
    /// The hex text of the hash of the file's content.
    pub hash: String,
}

impl View for ObjectEpilogue {
    type V = EpilogueView;

    open spec fn view(&self) -> EpilogueView {
        EpilogueView { size: self.size, hash: self.hash@ }
    }
}

impl Clone for ObjectEpilogue {
    fn clone(&self) -> (res: Self)
        ensures
            res@ == self@,
    {
        ObjectEpilogue { size: self.size, hash: self.hash.clone() }
    }
}

impl ObjectEpilogue {
    /// The epilogue of a file of `size` bytes whose content has the hash
    /// `digest`.
    pub fn new(size: u64, digest: &[u8]) -> (res: Self)
        ensures
            res@ == (EpilogueView { size, hash: hex(digest@) }),
    {
        ObjectEpilogue { size, hash: to_hex(digest) }
    }

    /// Whether the epilogue records `digest` as the hash of the content. A
    /// reader that has hashed what it read calls this to find out whether the
    /// content is intact; a mismatch is an integrity error.
    pub fn verify(&self, digest: &[u8]) -> (res: Result<(), ArchiveError>)
        ensures
            res == if self@.hash == hex(digest@) {
                Ok::<(), ArchiveError>(())
            } else {
                Err(ArchiveError::Integrity)
            },
    {
        let found = to_hex(digest);
        if str_eq(self.hash.as_str(), found.as_str()) {
            Ok(())
        } else {
            Err(ArchiveError::Integrity)
        }
    }
}

/// The descriptor of an object, as plain values.
pub struct InfoView {
    /// What the object is.
    pub object_type: ObjectType,
    /// The last component of the path of the object.
    pub name: Seq<char>,
    /// The path of the object where it was packed.
    pub original_path: Seq<char>,
    /// The components of the path of the object inside the archive.
    pub path: Seq<Seq<char>>,
    /// The epilogue, once the content of a file has been written.
    pub epilogue: Option<EpilogueView>,
}

/// The descriptor of an object.
#[derive(Debug)]
pub struct ObjectInfo {
    /// What the object is.
    pub object_type: ObjectType,
    /// The last component of the path of the object.
    pub name: String,
    /// The path of the object where it was packed.
    pub original_path: String,
    /// The components of the path of the object inside the archive.
    pub path: Vec<String>,
    /// The epilogue, once the content of a file has been written.
    pub epilogue: Option<ObjectEpilogue>,
}

/// The epilogue that may be there, as plain values.
pub open spec fn epilogue_view(epilogue: Option<ObjectEpilogue>) -> Option<EpilogueView> {
    match epilogue {
        Some(e) => Some(e@),
        None => None,
    }
}

impl View for ObjectInfo {
    type V = InfoView;

    open spec fn view(&self) -> InfoView {
        InfoView {
            object_type: self.object_type,
            name: self.name@,
            original_path: self.original_path@,
            path: self.path.deep_view(),
            epilogue: epilogue_view(self.epilogue),
        }
    }
}

/// A copy of a list of strings.
pub fn clone_strings(list: &[String]) -> (res: Vec<String>)
    ensures
        res.deep_view() == list.deep_view(),
{
    let mut res: Vec<String> = Vec::new();
    let mut i: usize = 0;
    while i < list.len()
        invariant
            i <= list@.len(),
            res@.len() == i,
            forall|k: int| 0 <= k < i ==> res@[k]@ == list@[k]@,
        decreases list@.len() - i,
    {
        res.push(list[i].clone());
        i += 1;
    }
    assert(res.deep_view() =~= list.deep_view());
    res
}

impl Clone for ObjectInfo {
    fn clone(&self) -> (res: Self)
        ensures
            res@ == self@,
    {
        let epilogue = match &self.epilogue {
            Some(e) => Some(e.clone()),
            None => None,
        };
        ObjectInfo {
            object_type: self.object_type,
            name: self.name.clone(),
            original_path: self.original_path.clone(),
            path: clone_strings(self.path.as_slice()),
            epilogue,
        }
    }
}

impl ObjectInfo {
    /// The descriptor of the object that was found at a path: `name` is the
    /// last component of the path, `original_path` its canonical form, and
    /// `object_path` its components inside the archive. `is_dir` and
    /// `is_file` say what the file system reports there; where it reports
    /// neither a directory nor a regular file, the object is refused as
    /// unsupported.
    pub fn from_path(
        name: String,
        original_path: String,
        object_path: &[String],
        is_dir: bool,
        is_file: bool,
    ) -> (res: Result<Self, ArchiveError>)
        ensures
            res is Ok <==> is_dir || is_file,
            res matches Ok(info) ==> info@ == (InfoView {
                object_type: if is_dir {
                    ObjectType::Directory
                } else {
                    ObjectType::File
                },
                name: name@,
                original_path: original_path@,
                path: object_path.deep_view(),
                epilogue: None,
            }),
            res matches Err(e) ==> e == ArchiveError::UnsupportedObject,
    {
        let path = clone_strings(object_path);
        if is_dir {
            Ok(
                ObjectInfo {
                    object_type: ObjectType::Directory,
                    name,
                    original_path,
                    path,
                    epilogue: None,
                },
            )
        } else if is_file {
            Ok(ObjectInfo { object_type: ObjectType::File, name, original_path, path, epilogue: None })
        } else {
            Err(ArchiveError::UnsupportedObject)
        }
    }
}

/// A list of descriptors, as plain values.
pub open spec fn infos_view(infos: Seq<ObjectInfo>) -> Seq<InfoView> {
    infos.map_values(|info: ObjectInfo| info@)
}

/// A copy of a list of descriptors.
pub fn clone_infos(infos: &[ObjectInfo]) -> (res: Vec<ObjectInfo>)
    ensures
        infos_view(res@) == infos_view(infos@),
{
    let mut res: Vec<ObjectInfo> = Vec::new();
    let mut i: usize = 0;
    while i < infos.len()
        invariant
            i <= infos@.len(),
            res@.len() == i,
            forall|k: int| 0 <= k < i ==> res@[k]@ == infos@[k]@,
        decreases infos@.len() - i,
    {
        res.push(infos[i].clone());
        i += 1;
    }
    assert(infos_view(res@) =~= infos_view(infos@));
    res
}

/// The list of the objects of an archive, which its last chunk carries.
#[derive(Debug)]
pub struct Manifest {
    /// The descriptors of the objects, in the order in which they were
    /// written, each file with its epilogue.
    pub objects: Vec<ObjectInfo>,
}

impl View for Manifest {
    type V = Seq<InfoView>;

    open spec fn view(&self) -> Seq<InfoView> {
        infos_view(self.objects@)
    }
}

impl Clone for Manifest {
    fn clone(&self) -> (res: Self)
        ensures
            res@ == self@,
    {
        Manifest { objects: clone_infos(self.objects.as_slice()) }
    }
}

} // verus!

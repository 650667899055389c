//! The snapshot records: one per filesystem entry, in three variants, plus
//! the content hash that file records carry.
use vstd::prelude::*;

verus! {

/// A SHA-256 digest: 32 raw bytes, rendered as lowercase hex.
#[derive(Debug, Clone, Copy, Eq)]
pub struct Hash {
    pub hash: [u8; 32],
}

impl View for Hash {
    type V = Seq<u8>;

    open spec fn view(&self) -> Seq<u8> {
        self.hash@
    }
}

impl From<[u8; 32]> for Hash {
    fn from(value: [u8; 32]) -> (r: Hash) {
        Hash { hash: value }
    }
}

impl vstd::std_specs::convert::FromSpecImpl<[u8; 32]> for Hash {
    open spec fn obeys_from_spec() -> bool {
        true
    }

    open spec fn from_spec(value: [u8; 32]) -> Hash {
        Hash { hash: value }
    }
}

impl PartialEq for Hash {
    fn eq(&self, other: &Hash) -> (r: bool) {
        let mut i: usize = 0;
        while i < 32
            invariant
                i <= 32,
                forall|j: int| 0 <= j < i ==> self.hash@[j] == other.hash@[j],
            decreases 32 - i,
        {
            if self.hash[i] != other.hash[i] {
                assert(self.hash@[i as int] != other.hash@[i as int]);
                return false;
            }
            i += 1;
        }
        proof {
            broadcast use vstd::array::array_len_matches_n;

            assert(self.hash@ =~= other.hash@);
        }
        true
    }
}

impl vstd::std_specs::cmp::PartialEqSpecImpl for Hash {
    open spec fn obeys_eq_spec() -> bool {
        true
    }

    open spec fn eq_spec(&self, other: &Hash) -> bool {
        self@ == other@
    }
}

/// What a symlink snapshot holds, at the specification level.
#[verifier::ext_equal]
pub ghost struct SymlinkMetadataV {
    pub data: Seq<char>,
    pub permissions: u32,
    pub modified: u64,
    pub size: u64,
}

/// A snapshot of one symlink: its target plus the shared attribute triple.
#[derive(Debug, Clone, Eq)]
pub struct SymlinkMetadata {
    pub data: String,
    pub permissions: u32,
    pub modified: u64,
    pub size: u64,
}

impl View for SymlinkMetadata {
    type V = SymlinkMetadataV;

    open spec fn view(&self) -> SymlinkMetadataV {
        SymlinkMetadataV {
            data: self.data@,
            permissions: self.permissions,
            modified: self.modified,
            size: self.size,
        }
    }
}

impl SymlinkMetadata {
    /// Builds the record from the stat result's plain values; an unreadable
    /// modification time is recorded as zero rather than failing the walk.
    pub fn new(data: String, permissions: u32, modified: Option<u64>, size: u64) -> (r: Self)
        ensures
            r@ == (SymlinkMetadataV {
                data: data@,
                permissions,
                modified: modified_or_zero(modified),
                size,
            }),
    {
        SymlinkMetadata { data, permissions, modified: modified_value(modified), size }
    }
}

impl PartialEq for SymlinkMetadata {
    fn eq(&self, other: &SymlinkMetadata) -> (r: bool) {
        let r = self.data == other.data && self.permissions == other.permissions
            && self.modified == other.modified && self.size == other.size;
        proof {
            if r {
                assert(self@ =~= other@);
            }
        }
        r
    }
}

impl vstd::std_specs::cmp::PartialEqSpecImpl for SymlinkMetadata {
    open spec fn obeys_eq_spec() -> bool {
        true
    }

    open spec fn eq_spec(&self, other: &SymlinkMetadata) -> bool {
        self@ == other@
    }
}

/// The recorded modification time: zero when the stat result had none.
pub open spec fn modified_or_zero(modified: Option<u64>) -> u64 {
    match modified {
        Some(t) => t,
        None => 0,
    }
}

fn modified_value(modified: Option<u64>) -> (r: u64)
    ensures
        r == modified_or_zero(modified),
{
    match modified {
        Some(t) => t,
        None => 0,
    }
}

/// What a file snapshot holds, at the specification level.
#[verifier::ext_equal]
pub ghost struct FileMetadataV {
    pub hash: Seq<u8>,
    pub permissions: u32,
    pub modified: u64,
    pub size: u64,
}

/// A snapshot of one regular file: its content digest plus the shared
/// attribute triple.
#[derive(Debug, Clone, Eq)]
pub struct FileMetadata {
    pub hash: Hash,
    pub permissions: u32,
    pub modified: u64,
    pub size: u64,
}

impl View for FileMetadata {
    type V = FileMetadataV;

    open spec fn view(&self) -> FileMetadataV {
        FileMetadataV {
            hash: self.hash@,
            permissions: self.permissions,
            modified: self.modified,
            size: self.size,
        }
    }
}

impl FileMetadata {
    /// Builds the record from the file's digest and the stat result's plain
    /// values; an unreadable modification time is recorded as zero.
    pub fn new(hash: [u8; 32], permissions: u32, modified: Option<u64>, size: u64) -> (r: Self)
        ensures
            r@ == (FileMetadataV {
                hash: hash@,
                permissions,
                modified: modified_or_zero(modified),
                size,
            }),
    {
        FileMetadata { hash: hash.into(), permissions, modified: modified_value(modified), size }
    }
}

impl PartialEq for FileMetadata {
    fn eq(&self, other: &FileMetadata) -> (r: bool) {
        let r = self.hash == other.hash && self.permissions == other.permissions
            && self.modified == other.modified && self.size == other.size;
        proof {
            if r {
                assert(self@ =~= other@);
            }
        }
        r
    }
}

impl vstd::std_specs::cmp::PartialEqSpecImpl for FileMetadata {
    open spec fn obeys_eq_spec() -> bool {
        true
    }

    open spec fn eq_spec(&self, other: &FileMetadata) -> bool {
        self@ == other@
    }
}

/// What a directory snapshot holds, at the specification level.
#[verifier::ext_equal]
pub ghost struct DirMetadataV {
    pub permissions: u32,
    pub modified: u64,
    pub size: u64,
}

/// A snapshot of one directory: the shared attribute triple.
#[derive(Debug, Clone, Eq)]
pub struct DirMetadata {
    pub permissions: u32,
    pub modified: u64,
    pub size: u64,
}

impl View for DirMetadata {
    type V = DirMetadataV;

    open spec fn view(&self) -> DirMetadataV {
        DirMetadataV { permissions: self.permissions, modified: self.modified, size: self.size }
    }
}

impl DirMetadata {
    /// Builds the record from the stat result's plain values; an unreadable
    /// modification time is recorded as zero.
    pub fn new(permissions: u32, modified: Option<u64>, size: u64) -> (r: Self)
        ensures
            r@ == (DirMetadataV { permissions, modified: modified_or_zero(modified), size }),
    {
        DirMetadata { permissions, modified: modified_value(modified), size }
    }
}

impl PartialEq for DirMetadata {
    fn eq(&self, other: &DirMetadata) -> (r: bool) {
        self.permissions == other.permissions && self.modified == other.modified && self.size
            == other.size
    }
}

impl vstd::std_specs::cmp::PartialEqSpecImpl for DirMetadata {
    open spec fn obeys_eq_spec() -> bool {
        true
    }

    open spec fn eq_spec(&self, other: &DirMetadata) -> bool {
        self@ == other@
    }
}

/// What a snapshot record holds, at the specification level.
#[verifier::ext_equal]
pub ghost enum RecordV {
    Symlink(SymlinkMetadataV),
    File(FileMetadataV),
    Dir(DirMetadataV),
}

/// A snapshot record: the tagged description of one filesystem entry.
#[derive(Debug, Clone, Eq)]
pub enum FileMetadataExt {
    Symlink(SymlinkMetadata),
    File(FileMetadata),
    Dir(DirMetadata),
}

impl View for FileMetadataExt {
    type V = RecordV;

    open spec fn view(&self) -> RecordV {
        match self {
            FileMetadataExt::Symlink(s) => RecordV::Symlink(s@),
            FileMetadataExt::File(f) => RecordV::File(f@),
            FileMetadataExt::Dir(d) => RecordV::Dir(d@),
        }
    }
}

impl FileMetadataExt {
    /// An owned copy with the same view; verified code uses this where a
    /// record must be kept beyond the batch that carried it.
    pub fn duplicate(&self) -> (r: Self)
        ensures
            r@ == self@,
    {
        match self {
            FileMetadataExt::Symlink(s) => FileMetadataExt::Symlink(
                SymlinkMetadata {
                    data: s.data.clone(),
                    permissions: s.permissions,
                    modified: s.modified,
                    size: s.size,
                },
            ),
            FileMetadataExt::File(f) => FileMetadataExt::File(
                FileMetadata {
                    hash: crate::types::Hash { hash: f.hash.hash },
                    permissions: f.permissions,
                    modified: f.modified,
                    size: f.size,
                },
            ),
            FileMetadataExt::Dir(d) => FileMetadataExt::Dir(
                DirMetadata { permissions: d.permissions, modified: d.modified, size: d.size },
            ),
        }
    }
}

impl PartialEq for FileMetadataExt {
    fn eq(&self, other: &FileMetadataExt) -> (r: bool) {
        match (self, other) {
            (FileMetadataExt::Symlink(a), FileMetadataExt::Symlink(b)) => a == b,
            (FileMetadataExt::File(a), FileMetadataExt::File(b)) => a == b,
            (FileMetadataExt::Dir(a), FileMetadataExt::Dir(b)) => a == b,
            _ => false,
        }
    }
}

impl vstd::std_specs::cmp::PartialEqSpecImpl for FileMetadataExt {
    open spec fn obeys_eq_spec() -> bool {
        true
    }

    open spec fn eq_spec(&self, other: &FileMetadataExt) -> bool {
        self@ == other@
    }
}

} // verus!

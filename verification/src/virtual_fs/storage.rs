use vstd::prelude::*;
use vstd::string::*;
use crate::commun_utils::fs_strategies::LARGE_FILE;
use crate::third_party::{join_path, path_joined};

verus! {

/// How a received file is stored: as a plain file, or as a directory of
/// versions for files past ten megabytes.
#[derive(Debug, Clone, Copy, PartialEq, Eq, Structural)]
pub enum StorageType {
    Normal,
    Hashed,
}

impl StorageType {
    pub fn from(value: usize) -> (r: Self)
        ensures
            r == (if value <= LARGE_FILE { StorageType::Normal } else { StorageType::Hashed }),
    {
        if value as u64 <= LARGE_FILE {
            StorageType::Normal
        } else {
            StorageType::Hashed
        }
    }
}

/// The storage chosen for a received file.
pub struct StorageStrategy {
    type_storage: StorageType,
}

impl StorageStrategy {
    pub closed spec fn storage(&self) -> StorageType {
        self.type_storage
    }

    pub fn from(value: StorageType) -> (r: Self)
        ensures
            r.storage() == value,
    {
        StorageStrategy { type_storage: value }
    }

    pub fn get_type_storage(&self) -> (r: StorageType)
        ensures
            r == self.storage(),
    {
        self.type_storage
    }

    /// Where a received file at `path` is written: the file itself, or,
    /// for a hashed storage, a directory at `path` holding `index.qcow`.
    pub fn get_dyn_storage_strategy(&self, path: &str) -> (r: StoragePlan)
        ensures
            match self.storage() {
                StorageType::Normal => r matches StoragePlan::NormalFile(p) && p@ == path@,
                StorageType::Hashed => r matches StoragePlan::HashContainerFile { dir, index_file }
                    && dir@ == path@ && index_file@ == path_joined(path@, "index.qcow"@),
            },
    {
        proof { reveal_strlit("index.qcow"); }
        match self.type_storage {
            StorageType::Normal => StoragePlan::NormalFile(path.to_string()),
            StorageType::Hashed => StoragePlan::HashContainerFile {
                dir: path.to_string(),
                index_file: join_path(path, "index.qcow"),
            },
        }
    }
}

/// The files a storage creates: a plain file, or a directory and the
/// `index.qcow` file inside it.
#[derive(Debug)]
pub enum StoragePlan {
    NormalFile(String),
    HashContainerFile { dir: String, index_file: String },
}

} // verus!

use vstd::prelude::*;
use crate::commun_utils::fs_strategies::AsPath;
use crate::third_party::{path_after_pop, pop_path};

verus! {

/// A served file's real path, and the path it is published under when that
/// differs (the directory holding it, for a directory's `index.qcow`).
#[derive(Debug)]
pub struct FakeToSubPath {
    inner: String,
    fake: Option<String>,
}

impl FakeToSubPath {
    pub closed spec fn inner(&self) -> Seq<char> {
        self.inner@
    }

    pub closed spec fn fake(&self) -> Option<Seq<char>> {
        match self.fake {
            Some(f) => Some(f@),
            None => None,
        }
    }

    /// Published under its own path.
    pub fn from_path(value: &str) -> (r: Self)
        ensures
            r.inner() == value@,
            r.fake() is None,
    {
        FakeToSubPath { inner: value.to_owned(), fake: None }
    }

    /// Published under the directory that holds it.
    pub fn from_path_buf(value: String) -> (r: Self)
        ensures
            r.inner() == value@,
            r.fake() == Some(path_after_pop(value@)),
    {
        let sub = pop_path(value.as_str());
        FakeToSubPath { inner: value, fake: Some(sub) }
    }

    /// The real path.
    pub fn as_ref(&self) -> (r: &str)
        ensures
            r@ == self.inner(),
    {
        self.inner.as_str()
    }

    /// The path the file is published under.
    pub fn get_link(&self) -> (r: &str)
        ensures
            r@ == match self.fake() {
                Some(f) => f,
                None => self.inner(),
            },
    {
        match &self.fake {
            Some(fake) => fake.as_str(),
            None => self.inner.as_str(),
        }
    }
}

impl AsPath for FakeToSubPath {
    open spec fn spec_path(&self) -> Seq<char> {
        self.inner()
    }

    fn as_path(&self) -> (r: &str) {
        self.as_ref()
    }
}

} // verus!

use vstd::prelude::*;

use std::path::PathBuf;
use vstd::std_specs::convert::IntoSpec;

verus! {

#[verifier::external_type_specification]
#[verifier::external_body]
pub struct ExPathBuf(std::path::PathBuf);

/// Where the correction dictionary is kept between runs.
pub struct DictionaryStore {
    path: PathBuf,
}

impl DictionaryStore {
    /// The file the store reads and writes.
    pub closed spec fn path_view(&self) -> PathBuf {
        self.path
    }

    /// A store for the dictionary file at `path`.
    pub fn new<P: Into<PathBuf>>(path: P) -> (s: Self)
        ensures
            P::obeys_into_spec() ==> s.path_view() == path.into_spec(),
    {
        DictionaryStore { path: path.into() }
    }

    /// The file the store reads and writes.
    pub fn path(&self) -> (p: &PathBuf)
        ensures
            *p == self.path_view(),
    {
        &self.path
    }
}

/// Where the dictation statistics are kept between runs.
pub struct StatsStore {
    path: PathBuf,
}

impl StatsStore {
    /// The file the store reads and writes.
    pub closed spec fn path_view(&self) -> PathBuf {
        self.path
    }

    /// A store for the statistics file at `path`.
    pub fn new<P: Into<PathBuf>>(path: P) -> (s: Self)
        ensures
            P::obeys_into_spec() ==> s.path_view() == path.into_spec(),
    {
        StatsStore { path: path.into() }
    }

    /// The file the store reads and writes.
    pub fn path(&self) -> (p: &PathBuf)
        ensures
            *p == self.path_view(),
    {
        &self.path
    }
}

} // verus!

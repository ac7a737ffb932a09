//! The state the application shares between its commands.

use vstd::prelude::*;
use crate::paths::AppPaths;
use crate::rule_store::RuleStore;

verus! {

/// The paths of the application and its rule store.
#[derive(Debug, PartialEq, Eq)]
pub struct AppState {
    paths: AppPaths,
    rule_store: RuleStore,
}

impl AppState {
    pub closed spec fn spec_data_dir(&self) -> Seq<char> {
        self.paths.spec_data_dir()
    }

    pub closed spec fn spec_store_dir(&self) -> Seq<char> {
        self.rule_store.spec_data_dir()
    }

    pub fn new(paths: AppPaths, rule_store: RuleStore) -> (r: AppState)
        ensures
            r.spec_data_dir() == paths.spec_data_dir(),
            r.spec_store_dir() == rule_store.spec_data_dir(),
    {
        AppState { paths, rule_store }
    }

    pub fn paths(&self) -> (r: &AppPaths)
        ensures
            r.spec_data_dir() == self.spec_data_dir(),
    {
        &self.paths
    }

    pub fn rule_store(&self) -> (r: &RuleStore)
        ensures
            r.spec_data_dir() == self.spec_store_dir(),
    {
        &self.rule_store
    }
}

} // verus!

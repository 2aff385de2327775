//! The records that the launcher keeps about plugins and projects.
use vstd::prelude::*;

use crate::text::{split_whitespace, string_views, whitespace_words};

verus! {

/// What the record store reported when it refused a change.
#[derive(Debug, Clone)]
pub struct StoreError {
    pub message: String,
}

/// A plugin known to the launcher: a shared library that the editor loads when
/// `will_be_used` is set, and the plugins it needs beside it.
#[derive(Debug, Clone)]
pub struct Plugin {
    pub id: i32,
    pub dev_name: String,
    pub will_be_used: bool,
    pub dependencies: Vec<String>,
}

impl Plugin {
    /// The plugin that a stored row describes; the dependencies column lists the
    /// names of the needed plugins, separated by white space.
    pub fn from_row(id: i32, dev_name: String, will_be_used: bool, dependencies: &str) -> (p: Plugin)
        ensures
            p.id == id,
            p.dev_name == dev_name,
            p.will_be_used == will_be_used,
            string_views(p.dependencies@) == whitespace_words(dependencies@),
    {
        Plugin { id, dev_name, will_be_used, dependencies: split_whitespace(dependencies) }
    }

    /// Takes the new value of `will_be_used` once the store has accepted it; a
    /// refused change leaves the plugin as it was and hands the refusal back.
    pub fn set_will_be_used(&mut self, value: bool, stored: Result<(), StoreError>) -> (r: Result<
        (),
        StoreError,
    >)
        ensures
            r == stored,
            stored is Ok ==> final(self).will_be_used == value && final(self).id == old(self).id
                && final(self).dev_name == old(self).dev_name && final(self).dependencies == old(
                self,
            ).dependencies,
            stored is Err ==> *final(self) == *old(self),
    {
        if stored.is_ok() {
            self.will_be_used = value;
        }
        stored
    }
}

/// A project known to the launcher: the directory `dir/dev_name`.
#[derive(Debug, Clone)]
pub struct Project {
    pub id: i32,
    pub dev_name: String,
    pub dir: String,
}

impl Project {
    /// Takes the new name once the store has accepted it; a refused change leaves
    /// the project as it was and hands the refusal back.
    pub fn rename(&mut self, value: String, stored: Result<(), StoreError>) -> (r: Result<(), StoreError>)
        ensures
            r == stored,
            stored is Ok ==> final(self).dev_name == value && final(self).id == old(self).id
                && final(self).dir == old(self).dir,
            stored is Err ==> *final(self) == *old(self),
    {
        if stored.is_ok() {
            self.dev_name = value;
        }
        stored
    }

    /// Takes the new parent directory once the store has accepted it; a refused
    /// change leaves the project as it was and hands the refusal back.
    pub fn replace(&mut self, value: String, stored: Result<(), StoreError>) -> (r: Result<(), StoreError>)
        ensures
            r == stored,
            stored is Ok ==> final(self).dir == value && final(self).id == old(self).id
                && final(self).dev_name == old(self).dev_name,
            stored is Err ==> *final(self) == *old(self),
    {
        if stored.is_ok() {
            self.dir = value;
        }
        stored
    }

    /// The identifier for a new project: one above the largest stored one, or 1
    /// when none could be read.
    pub fn next_id(max_id: Option<i32>) -> (id: i32)
        requires
            max_id matches Some(m) ==> m < i32::MAX,
        ensures
            id == match max_id {
                Some(m) => m + 1,
                None => 1,
            },
    {
        match max_id {
            Some(m) => m + 1,
            None => 1,
        }
    }
}

} // verus!

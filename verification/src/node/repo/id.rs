//! Names of the folders of a compiled commit.
use vstd::prelude::*;
use vstd::string::*;

use crate::text::{join, path_join, push_char, to_string};

verus! {

/// For folder and file name generation.
pub struct Id<'a> {
    /// For nicer folder and results identifiers.
    pub name: &'a str,
    /// The branch the commit should belong to.
    pub branch: &'a str,
    /// The commit we are checking out.
    pub hash: &'a str,
    /// The date is for ordering results.
    pub date: &'a str,
    /// Archive subfolder.
    pub path: &'a str,
}

/// The name `name-branch-date-hash` of a commit's folder.
pub open spec fn subfolder_spec(name: Seq<char>, branch: Seq<char>, date: Seq<char>, hash: Seq<char>) -> Seq<char> {
    name + seq!['-'] + branch + seq!['-'] + date + seq!['-'] + hash
}

impl<'a> Id<'a> {
    /// The name `name-branch-date-hash` of the commit's folder.
    pub open spec fn subfolder_name_spec(&self) -> Seq<char> {
        subfolder_spec(self.name@, self.branch@, self.date@, self.hash@)
    }

    /// The path of the commit's folder inside the archive.
    pub open spec fn folder_spec(&self) -> Seq<char> {
        path_join(self.path@, self.subfolder_name_spec())
    }

    /// The name `name-branch-date-hash` of the commit's folder.
    pub fn subfolder_name(&self) -> (s: String)
        ensures
            s@ == self.subfolder_name_spec(),
    {
        let mut s = to_string(self.name);
        push_char(&mut s, '-');
        s.append(self.branch);
        push_char(&mut s, '-');
        s.append(self.date);
        push_char(&mut s, '-');
        s.append(self.hash);
        s
    }

    /// The path of the commit's folder inside the archive.
    pub fn folder(&self) -> (p: String)
        ensures
            p@ == self.folder_spec(),
    {
        join(self.path, self.subfolder_name().as_str())
    }

    /// The path of the commit's folder, as text.
    pub fn folder_string(&self) -> (p: String)
        ensures
            p@ == self.folder_spec(),
    {
        self.folder()
    }
}

} // verus!

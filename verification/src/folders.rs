//! The folders of an osimperf home directory, each recognised by a marker
//! file inside it.
use vstd::prelude::*;

use crate::error::Error;
use crate::text::{join, path_join, to_string};

verus! {

/// The marker file of an archive folder.
pub const ARCHIVE_TOUCH_FILE: &'static str = ".osimperf-archive";

/// The marker file of a results folder.
pub const RESULTS_TOUCH_FILE: &'static str = ".osimperf-results";

/// A folder whose marker file tells that it is the right one.
pub trait Folder: Sized {
    /// The name of the marker file.
    spec fn touch_file_spec() -> Seq<char>;

    /// The folder's path.
    spec fn path_spec(&self) -> Seq<char>;

    /// The name of the marker file.
    fn touch_file() -> (s: &'static str)
        ensures
            s@ == Self::touch_file_spec(),
    ;

    /// The folder's path, whether or not it was verified.
    fn path_unchecked(&self) -> (p: &str)
        ensures
            p@ == self.path_spec(),
    ;

    /// A folder at `path`, not verified.
    fn new_unchecked(path: String) -> (f: Self)
        ensures
            f.path_spec() == path@,
    ;

    /// The folder's path.
    fn path(&self) -> (p: Result<&str, Error>)
        ensures
            p matches Ok(s) && s@ == self.path_spec(),
    {
        Ok(self.path_unchecked())
    }

    /// The folder's path, as text.
    fn path_str(&self) -> (p: Result<&str, Error>)
        ensures
            p matches Ok(s) && s@ == self.path_spec(),
    {
        self.path()
    }

    /// The path of the marker file.
    fn magic_file(&self) -> (p: String)
        ensures
            p@ == path_join(self.path_spec(), Self::touch_file_spec()),
    {
        join(self.path_unchecked(), Self::touch_file())
    }

    /// Checks that the marker file exists, as `path_exists` reports it.
    fn verify<E: Fn(&str) -> bool>(&self, path_exists: &E) -> (res: Result<(), Error>)
        requires
            forall|p: &str| call_requires(*path_exists, (p,)),
        ensures
            exists|b: bool|
                #![trigger answered(*path_exists, path_join(self.path_spec(), Self::touch_file_spec()), b)]
                answered(*path_exists, path_join(self.path_spec(), Self::touch_file_spec()), b)
                    && res == (if b {
                    Ok(())
                } else {
                    Err(Error::MagicFileMissing)
                }),
    {
        let m = self.magic_file();
        let b = path_exists(m.as_str());
        assert(answered(*path_exists, m@, b));
        if b {
            Ok(())
        } else {
            Err(Error::MagicFileMissing)
        }
    }

    /// The folder at `path`, once its marker file is found.
    fn new<E: Fn(&str) -> bool>(path: &str, path_exists: &E) -> (res: Result<Self, Error>)
        requires
            forall|p: &str| call_requires(*path_exists, (p,)),
        ensures
            exists|b: bool|
                #![trigger answered(*path_exists, path_join(path@, Self::touch_file_spec()), b)]
                answered(*path_exists, path_join(path@, Self::touch_file_spec()), b) && (b
                    <==> res is Ok),
            res matches Ok(f) ==> f.path_spec() == path@,
    {
        let out = Self::new_unchecked(to_string(path));
        out.verify(path_exists)?;
        Ok(out)
    }
}

/// `path_exists` was asked whether a path that looks like `p` exists, and
/// answered `b`.
pub open spec fn answered<E: Fn(&str) -> bool>(path_exists: E, p: Seq<char>, b: bool) -> bool {
    exists|s: &str| s@ == p && #[trigger] call_ensures(path_exists, (s,), b)
}

/// The home directory of osimperf.
pub struct Home {
    path: String,
}

/// Where all the builds happen.
pub struct BuildFolder {
    path: String,
}

/// Where all the installs are stored.
pub struct Archive {
    path: String,
}

/// Where the benchmark results are stored.
pub struct ResultsFolder {
    path: String,
}

impl Folder for Home {
    open spec fn touch_file_spec() -> Seq<char> {
        ".osimperf-home"@
    }

    closed spec fn path_spec(&self) -> Seq<char> {
        self.path@
    }

    fn touch_file() -> (s: &'static str) {
        ".osimperf-home"
    }

    fn path_unchecked(&self) -> (p: &str) {
        self.path.as_str()
    }

    fn new_unchecked(path: String) -> (f: Self) {
        Self { path }
    }
}

impl Folder for BuildFolder {
    open spec fn touch_file_spec() -> Seq<char> {
        ".osimperf-build"@
    }

    closed spec fn path_spec(&self) -> Seq<char> {
        self.path@
    }

    fn touch_file() -> (s: &'static str) {
        ".osimperf-build"
    }

    fn path_unchecked(&self) -> (p: &str) {
        self.path.as_str()
    }

    fn new_unchecked(path: String) -> (f: Self) {
        Self { path }
    }
}

impl Folder for Archive {
    open spec fn touch_file_spec() -> Seq<char> {
        ".osimperf-archive"@
    }

    closed spec fn path_spec(&self) -> Seq<char> {
        self.path@
    }

    fn touch_file() -> (s: &'static str) {
        ARCHIVE_TOUCH_FILE
    }

    fn path_unchecked(&self) -> (p: &str) {
        self.path.as_str()
    }

    fn new_unchecked(path: String) -> (f: Self) {
        Self { path }
    }
}

impl Folder for ResultsFolder {
    open spec fn touch_file_spec() -> Seq<char> {
        ".osimperf-results"@
    }

    closed spec fn path_spec(&self) -> Seq<char> {
        self.path@
    }

    fn touch_file() -> (s: &'static str) {
        RESULTS_TOUCH_FILE
    }

    fn path_unchecked(&self) -> (p: &str) {
        self.path.as_str()
    }

    fn new_unchecked(path: String) -> (f: Self) {
        Self { path }
    }
}

impl Home {
    /// The build folder `build` inside home, once verified.
    pub fn default_build<E: Fn(&str) -> bool>(&self, path_exists: &E) -> (res: Result<
        BuildFolder,
        Error,
    >)
        requires
            forall|p: &str| call_requires(*path_exists, (p,)),
        ensures
            ({
                let p = path_join(self.path_spec(), "build"@);
                &&& exists|b: bool|
                    #![trigger answered(*path_exists, path_join(p, BuildFolder::touch_file_spec()), b)]
                    answered(*path_exists, path_join(p, BuildFolder::touch_file_spec()), b) && (b
                        <==> res is Ok)
                &&& res matches Ok(f) ==> f.path_spec() == p
            }),
    {
        let p = join(self.path.as_str(), "build");
        let r = BuildFolder::new(p.as_str(), path_exists);
        assert(p@ == path_join(self.path_spec(), "build"@));
        assert(exists|b: bool| #![trigger answered(*path_exists, path_join(p@, BuildFolder::touch_file_spec()), b)] answered(*path_exists, path_join(p@, BuildFolder::touch_file_spec()), b) && (b <==> r is Ok));
        r
    }

    /// The archive folder `archive` inside home, once verified.
    pub fn default_archive<E: Fn(&str) -> bool>(&self, path_exists: &E) -> (res: Result<
        Archive,
        Error,
    >)
        requires
            forall|p: &str| call_requires(*path_exists, (p,)),
        ensures
            ({
                let p = path_join(self.path_spec(), "archive"@);
                &&& exists|b: bool|
                    #![trigger answered(*path_exists, path_join(p, Archive::touch_file_spec()), b)]
                    answered(*path_exists, path_join(p, Archive::touch_file_spec()), b) && (b
                        <==> res is Ok)
                &&& res matches Ok(f) ==> f.path_spec() == p
            }),
    {
        let p = join(self.path.as_str(), "archive");
        let r = Archive::new(p.as_str(), path_exists);
        assert(p@ == path_join(self.path_spec(), "archive"@));
        assert(exists|b: bool| #![trigger answered(*path_exists, path_join(p@, Archive::touch_file_spec()), b)] answered(*path_exists, path_join(p@, Archive::touch_file_spec()), b) && (b <==> r is Ok));
        r
    }

    /// The results folder `results` inside home, once verified.
    pub fn default_results<E: Fn(&str) -> bool>(&self, path_exists: &E) -> (res: Result<
        ResultsFolder,
        Error,
    >)
        requires
            forall|p: &str| call_requires(*path_exists, (p,)),
        ensures
            ({
                let p = path_join(self.path_spec(), "results"@);
                &&& exists|b: bool|
                    #![trigger answered(*path_exists, path_join(p, ResultsFolder::touch_file_spec()), b)]
                    answered(*path_exists, path_join(p, ResultsFolder::touch_file_spec()), b) && (b
                        <==> res is Ok)
                &&& res matches Ok(f) ==> f.path_spec() == p
            }),
    {
        let p = join(self.path.as_str(), "results");
        let r = ResultsFolder::new(p.as_str(), path_exists);
        assert(p@ == path_join(self.path_spec(), "results"@));
        assert(exists|b: bool| #![trigger answered(*path_exists, path_join(p@, ResultsFolder::touch_file_spec()), b)] answered(*path_exists, path_join(p@, ResultsFolder::touch_file_spec()), b) && (b <==> r is Ok));
        r
    }
}

impl ResultsFolder {
    /// The scratch directory in which benchmarks run.
    pub fn test_context_dir(&self) -> (res: Result<String, Error>)
        ensures
            res matches Ok(p) && p@ == path_join(self.path_spec(), "scratch"@),
    {
        Ok(join(self.path.as_str(), "scratch"))
    }
}

} // verus!

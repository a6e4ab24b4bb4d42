//! The scratch folder a benchmark runs in: its setup files and the model
//! files it needs, side by side.
use vstd::prelude::*;

use super::config::TEST_SETUP_FILE_NAME;
use crate::error::Error;
use crate::text::{file_name, file_name_spec, join, path_join, str_eq};

verus! {

/// Where `file` lands in the flat folder `flat_dir`: under its own name.
pub fn flattened_path(file: &str, flat_dir: &str) -> (p: String)
    requires
        file_name_spec(file@) is Some,
    ensures
        p@ == path_join(flat_dir@, file_name_spec(file@)->0),
{
    let name = file_name(file);
    match name {
        Some(n) => join(flat_dir, n.as_str()),
        None => join(flat_dir, ""),
    }
}

/// Whether a file of the setup folder is copied to the context: all but the
/// setup file itself.
pub fn is_copied_to_context(file: &str) -> (b: bool)
    requires
        file_name_spec(file@) is Some,
    ensures
        b == (file_name_spec(file@)->0 != TEST_SETUP_FILE_NAME@),
{
    match file_name(file) {
        Some(n) => !str_eq(n.as_str(), TEST_SETUP_FILE_NAME),
        None => false,
    }
}

/// The one file named `required_file` that `find` finds under
/// `search_dir`: an error when there is none or more than one.
pub fn find_modeling_file<G: Fn(&str, &str) -> Vec<String>>(
    required_file: &str,
    search_dir: &str,
    find: &G,
) -> (res: Result<String, Error>)
    requires
        call_requires(*find, (search_dir, required_file)),
    ensures
        exists|found: Vec<String>|
            #[trigger] call_ensures(*find, (search_dir, required_file), found) && match found.len() {
                0 => res == Err::<String, Error>(Error::FileNotFound),
                1 => res matches Ok(p) && p@ == found@[0]@,
                n => res == Err::<String, Error>(Error::AmbiguousFile(n)),
            },
{
    let search_results = find(search_dir, required_file);
    match search_results.len() {
        0 => Err(Error::FileNotFound),
        1 => Ok(search_results[0].clone()),
        len => Err(Error::AmbiguousFile(len)),
    }
}

} // verus!

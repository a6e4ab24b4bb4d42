//! A full commit hash.
use vstd::prelude::*;

use crate::error::Error;
use crate::text::{chars_of, to_string};

verus! {

/// A commit hash of forty characters.
pub struct Hash {
    value: String,
}

impl View for Hash {
    type V = Seq<char>;

    closed spec fn view(&self) -> Seq<char> {
        self.value@
    }
}

impl Hash {
    /// The hash `hash`, when it has forty characters.
    pub fn new(hash: &str) -> (r: Result<Self, Error>)
        ensures
            r matches Ok(h) ==> h@ == hash@,
            r is Ok <==> hash@.len() == 40,
            r matches Err(e) ==> e == Error::InvalidHash,
    {
        let v = chars_of(hash);
        if v.len() != 40 {
            return Err(Error::InvalidHash);
        }
        Ok(Self { value: to_string(hash) })
    }

    /// The hash as text.
    pub fn str(&self) -> (s: &str)
        ensures
            s@ == self@,
    {
        self.value.as_str()
    }
}

} // verus!

//! Source units: one discovered source file with its derived namespace.

use vstd::prelude::*;
use vstd::slice::slice_to_vec;
use vstd::string::StringSliceAdditionalSpecFns;

verus! {

/// One discovered source file: its derived dotted namespace name and the
/// path it was found under, both as UTF-8 bytes. The corpus may hold two
/// units with the same namespace (the same logical name under two source
/// roots); nothing here assumes uniqueness.
#[derive(Debug)]
pub struct ClojureSourceFile {
    /// The unit's dotted namespace name.
    pub ns: Vec<u8>,
    /// The path of the file the unit was read from.
    pub path: Vec<u8>,
}

/// The abstract value of a source unit: its namespace and path as byte
/// strings.
pub struct SourceFileView {
    /// The unit's dotted namespace name.
    pub ns: Seq<u8>,
    /// The path of the file the unit was read from.
    pub path: Seq<u8>,
}

impl View for ClojureSourceFile {
    type V = SourceFileView;

    open spec fn view(&self) -> SourceFileView {
        SourceFileView { ns: self.ns@, path: self.path@ }
    }
}

impl ClojureSourceFile {
    /// Builds a source unit from its namespace name and file path.
    pub fn new(namespace: &str, path: &str) -> (r: ClojureSourceFile)
        ensures
            r@.ns == namespace.spec_bytes(),
            r@.path == path.spec_bytes(),
    {
        ClojureSourceFile {
            ns: slice_to_vec(namespace.as_bytes()),
            path: slice_to_vec(path.as_bytes()),
        }
    }

    /// The unit's namespace name.
    pub fn namespace(&self) -> (r: &Vec<u8>)
        ensures
            r@ == self@.ns,
    {
        &self.ns
    }

    /// The path of the file the unit was read from.
    pub fn path(&self) -> (r: &Vec<u8>)
        ensures
            r@ == self@.path,
    {
        &self.path
    }
}

} // verus!

//! Translation between where a target is stored and how metadata refers to it.

use vstd::prelude::*;

use crate::error::Error;
use crate::path::{TargetPath, VirtualTargetPath};

verus! {

/// Translates real paths (where a file is stored) into virtual paths (how metadata refers to it)
/// and back.
///
/// The two translations are each other's inverse on every path: what comes of translating a path
/// there and back is the path itself.
pub trait PathTranslator {
    /// The virtual path of a real one.
    open spec fn spec_real_to_virtual(&self, real_path: Seq<char>) -> Result<Seq<char>, Error> {
        Ok(real_path)
    }

    /// The real path of a virtual one.
    open spec fn spec_virtual_to_real(&self, virtual_path: Seq<char>) -> Result<Seq<char>, Error> {
        Ok(virtual_path)
    }

    /// Converts a real path into a virtual path. That converts back into the real path.
    fn real_to_virtual(&self, path: &TargetPath) -> (r: Result<VirtualTargetPath, Error>)
        ensures
            match self.spec_real_to_virtual(path@) {
                Ok(virtual_path) => r matches Ok(v) && v@ == virtual_path,
                Err(error) => r == Err::<VirtualTargetPath, Error>(error),
            },
            r matches Ok(v) && self.spec_virtual_to_real(v@) == Ok::<Seq<char>, Error>(path@),
    ;

    /// Converts a virtual path into a real path. That converts back into the virtual path.
    fn virtual_to_real(&self, path: &VirtualTargetPath) -> (r: Result<TargetPath, Error>)
        ensures
            match self.spec_virtual_to_real(path@) {
                Ok(real_path) => r matches Ok(p) && p@ == real_path,
                Err(error) => r == Err::<TargetPath, Error>(error),
            },
            r matches Ok(p) && self.spec_real_to_virtual(p@) == Ok::<Seq<char>, Error>(path@),
    ;
}

/// A `PathTranslator` that does nothing.
#[derive(Debug, PartialEq)]
pub struct DefaultTranslator;

impl DefaultTranslator {
    /// Creates a `DefaultTranslator`.
    pub fn new() -> (r: Self)
        ensures
            r == DefaultTranslator,
    {
        DefaultTranslator
    }
}

impl Clone for DefaultTranslator {
    fn clone(&self) -> (r: Self)
        ensures
            r == *self,
    {
        DefaultTranslator
    }
}

impl Default for DefaultTranslator {
    fn default() -> (r: Self)
        ensures
            r == DefaultTranslator,
    {
        DefaultTranslator
    }
}

impl PathTranslator for DefaultTranslator {
    /// A path is its own virtual path.
    open spec fn spec_real_to_virtual(&self, real_path: Seq<char>) -> Result<Seq<char>, Error> {
        Ok(real_path)
    }

    /// A path is its own real path.
    open spec fn spec_virtual_to_real(&self, virtual_path: Seq<char>) -> Result<Seq<char>, Error> {
        Ok(virtual_path)
    }

    fn real_to_virtual(&self, path: &TargetPath) -> (r: Result<VirtualTargetPath, Error>)
        ensures
            r matches Ok(virtual_path) && virtual_path@ == path@,
    {
        VirtualTargetPath::new(path.value().to_owned())
    }

    fn virtual_to_real(&self, path: &VirtualTargetPath) -> (r: Result<TargetPath, Error>)
        ensures
            r matches Ok(real_path) && real_path@ == path@,
    {
        TargetPath::new(path.value().to_owned())
    }
}

/// The default translator leaves every path as it is, in both directions.
pub proof fn default_translator_changes_no_path(translator: DefaultTranslator, path: Seq<char>)
    ensures
        translator.spec_real_to_virtual(path) == Ok::<Seq<char>, Error>(path),
        translator.spec_virtual_to_real(path) == Ok::<Seq<char>, Error>(path),
{
}

} // verus!

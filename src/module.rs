//! Identity of a module.

use vstd::prelude::*;

verus! {

/// Version of a module: a major number, a minor letter and a beta number
/// (zero for a release).
#[derive(Debug, Clone, Copy, PartialEq, Eq)]
pub struct ModuleVersion {
    major: u8,
    minor: char,
    beta: u8,
}

impl ModuleVersion {
    /// The major number.
    pub closed spec fn major_spec(&self) -> u8 {
        self.major
    }

    /// The minor letter.
    pub closed spec fn minor_spec(&self) -> char {
        self.minor
    }

    /// The beta number.
    pub closed spec fn beta_spec(&self) -> u8 {
        self.beta
    }

    /// Build a version; the minor version is an ASCII letter.
    pub fn new(major: u8, minor: char, beta: u8) -> (r: Self)
        requires
            ('a' <= minor <= 'z') || ('A' <= minor <= 'Z'),
        ensures
            r.major_spec() == major,
            r.minor_spec() == minor,
            r.beta_spec() == beta,
    {
        ModuleVersion { major, minor, beta }
    }

    /// The major number.
    pub fn major(&self) -> (r: u8)
        ensures
            r == self.major_spec(),
    {
        self.major
    }

    /// The minor letter as an octet.
    pub fn minor(&self) -> (r: u8)
        ensures
            r == self.minor_spec() as u8,
    {
        self.minor as u8
    }

    /// The beta number.
    pub fn beta(&self) -> (r: u8)
        ensures
            r == self.beta_spec(),
    {
        self.beta
    }
}

} // verus!
